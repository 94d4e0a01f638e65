//! The messages the inspector shows where it cannot display a value: each is a
//! run of text segments, set in a proportional or a monospace font.
use vstd::prelude::*;

use crate::inspection::utils::{pretty_type_name_str, short_type_name};

verus! {

/// Why a value has no custom inspector.
#[derive(PartialEq, Eq, Structural)]
pub enum TypeDataError {
    NoTypeData,
    NotRegistered,
    NotFullyReflected,
}

/// A piece of a message and the font it is set in.
pub struct TextSegment {
    pub monospace: bool,
    pub text: String,
}

/// The font and text of each segment of a message.
pub open spec fn segment_texts(job: Seq<TextSegment>) -> Seq<(bool, Seq<char>)> {
    job.map_values(|s: TextSegment| (s.monospace, s.text@))
}

fn proportional(text: &str) -> (s: TextSegment)
    ensures
        !s.monospace,
        s.text@ == text@,
{
    TextSegment { monospace: false, text: text.to_string() }
}

fn monospace(text: &str) -> (s: TextSegment)
    ensures
        s.monospace,
        s.text@ == text@,
{
    TextSegment { monospace: true, text: text.to_string() }
}

/// The text of `no_access_resource`.
pub open spec fn no_access_resource_text(name_of_type: Seq<char>) -> Seq<(bool, Seq<char>)> {
    seq![(false, "No access to resource "@), (true, name_of_type), (false, "."@)]
}

/// The inspector has no access to the given resource.
pub fn no_access_resource(name_of_type: &str) -> (job: Vec<TextSegment>)
    ensures
        segment_texts(job@) == no_access_resource_text(name_of_type@),
{
    let mut job: Vec<TextSegment> = Vec::new();
    job.push(proportional("No access to resource "));
    job.push(monospace(name_of_type));
    job.push(proportional("."));
    job
}

/// The text of `no_access_component`.
pub open spec fn no_access_component_text(entity: Seq<char>, name_of_type: Seq<char>) -> Seq<(bool, Seq<char>)> {
    seq![(false, "No access to component "@), (true, name_of_type), (false, " on entity "@), (true, entity), (false, "."@)]
}

/// The inspector has no access to the given component of an entity.
pub fn no_access_component(entity: &str, name_of_type: &str) -> (job: Vec<TextSegment>)
    ensures
        segment_texts(job@) == no_access_component_text(entity@, name_of_type@),
{
    let mut job: Vec<TextSegment> = Vec::new();
    job.push(proportional("No access to component "));
    job.push(monospace(name_of_type));
    job.push(proportional(" on entity "));
    job.push(monospace(entity));
    job.push(proportional("."));
    job
}

/// The text of `nonexistent_resource`.
pub open spec fn nonexistent_resource_text(name: Seq<char>) -> Seq<(bool, Seq<char>)> {
    seq![(false, "Resource "@), (true, name), (false, " does not exist in the world."@)]
}

/// A resource necessary for the UI does not exist.
pub fn nonexistent_resource(name: &str) -> (job: Vec<TextSegment>)
    ensures
        segment_texts(job@) == nonexistent_resource_text(name@),
{
    let mut job: Vec<TextSegment> = Vec::new();
    job.push(proportional("Resource "));
    job.push(monospace(name));
    job.push(proportional(" does not exist in the world."));
    job
}

/// The text of `nonexistent_entity`.
pub open spec fn nonexistent_entity_text(entity: Seq<char>) -> Seq<(bool, Seq<char>)> {
    seq![(false, "Entity "@), (true, entity), (false, " does not exist."@)]
}

/// An entity does not exist.
pub fn nonexistent_entity(entity: &str) -> (job: Vec<TextSegment>)
    ensures
        segment_texts(job@) == nonexistent_entity_text(entity@),
{
    let mut job: Vec<TextSegment> = Vec::new();
    job.push(proportional("Entity "));
    job.push(monospace(entity));
    job.push(proportional(" does not exist."));
    job
}

/// The text of `nonexistent_component`.
pub open spec fn nonexistent_component_text(entity: Seq<char>, name: Seq<char>) -> Seq<(bool, Seq<char>)> {
    seq![(false, "Component "@), (true, name), (false, " does not exist on entity "@), (true, entity), (false, "."@)]
}

/// A component necessary for the UI does not exist on an entity.
pub fn nonexistent_component(entity: &str, name: &str) -> (job: Vec<TextSegment>)
    ensures
        segment_texts(job@) == nonexistent_component_text(entity@, name@),
{
    let mut job: Vec<TextSegment> = Vec::new();
    job.push(proportional("Component "));
    job.push(monospace(name));
    job.push(proportional(" does not exist on entity "));
    job.push(monospace(entity));
    job.push(proportional("."));
    job
}

/// The text of `missing_componentid`.
pub open spec fn missing_componentid_text(name_of_type: Seq<char>) -> Seq<(bool, Seq<char>)> {
    seq![(true, name_of_type), (false, " has no associated "@), (true, "ComponentId"@), (false, "."@)]
}

/// The type has no associated component id.
pub fn missing_componentid(name_of_type: &str) -> (job: Vec<TextSegment>)
    ensures
        segment_texts(job@) == missing_componentid_text(name_of_type@),
{
    let mut job: Vec<TextSegment> = Vec::new();
    job.push(monospace(name_of_type));
    job.push(proportional(" has no associated "));
    job.push(monospace("ComponentId"));
    job.push(proportional("."));
    job
}

/// The text of `missing_type_id`.
pub open spec fn missing_type_id_text(component_name: Seq<char>) -> Seq<(bool, Seq<char>)> {
    seq![(true, component_name), (false, " is not backed by a rust type, so it cannot be displayed."@)]
}

/// The component is not backed by a rust type.
pub fn missing_type_id(component_name: &str) -> (job: Vec<TextSegment>)
    ensures
        segment_texts(job@) == missing_type_id_text(component_name@),
{
    let mut job: Vec<TextSegment> = Vec::new();
    job.push(monospace(component_name));
    job.push(proportional(" is not backed by a rust type, so it cannot be displayed."));
    job
}

/// The text of `missing_typedata`.
pub open spec fn missing_typedata_text(name_of_type: Seq<char>, type_data: Seq<char>) -> Seq<(bool, Seq<char>)> {
    seq![(true, name_of_type), (false, " has no "@), (true, type_data), (false, " type data, so it cannot be displayed"@)]
}

/// The type has no type data needed to display it.
pub fn missing_typedata(name_of_type: &str, type_data: &str) -> (job: Vec<TextSegment>)
    ensures
        segment_texts(job@) == missing_typedata_text(name_of_type@, type_data@),
{
    let mut job: Vec<TextSegment> = Vec::new();
    job.push(monospace(name_of_type));
    job.push(proportional(" has no "));
    job.push(monospace(type_data));
    job.push(proportional(" type data, so it cannot be displayed"));
    job
}

/// The text of `no_world_in_context`.
pub open spec fn no_world_in_context_text(name_of_type: Seq<char>) -> Seq<(bool, Seq<char>)> {
    seq![(true, name_of_type), (false, " needs the bevy world in the "@), (true, "InspectorUi"@), (false, " context to provide meaningful information."@)]
}

/// The UI needs the world, which the inspector context does not hold.
pub fn no_world_in_context(name_of_type: &str) -> (job: Vec<TextSegment>)
    ensures
        segment_texts(job@) == no_world_in_context_text(name_of_type@),
{
    let mut job: Vec<TextSegment> = Vec::new();
    job.push(monospace(name_of_type));
    job.push(proportional(" needs the bevy world in the "));
    job.push(monospace("InspectorUi"));
    job.push(proportional(" context to provide meaningful information."));
    job
}

/// The text of `nonexistent_asset_handle`.
pub open spec fn nonexistent_asset_handle_text(handle: Seq<char>) -> Seq<(bool, Seq<char>)> {
    seq![(false, "Handle "@), (true, handle), (false, " points to no asset."@)]
}

/// A handle points to no asset.
pub fn nonexistent_asset_handle(handle: &str) -> (job: Vec<TextSegment>)
    ensures
        segment_texts(job@) == nonexistent_asset_handle_text(handle@),
{
    let mut job: Vec<TextSegment> = Vec::new();
    job.push(proportional("Handle "));
    job.push(monospace(handle));
    job.push(proportional(" points to no asset."));
    job
}

/// The text of `no_default_value`.
pub open spec fn no_default_value_text(name_of_type: Seq<char>) -> Seq<(bool, Seq<char>)> {
    seq![(true, name_of_type), (false, " has no "@), (true, "ReflectDefault"@), (false, " type data, so no value of it can be constructed."@)]
}

/// No value of the type can be constructed.
pub fn no_default_value(name_of_type: &str) -> (job: Vec<TextSegment>)
    ensures
        segment_texts(job@) == no_default_value_text(name_of_type@),
{
    let mut job: Vec<TextSegment> = Vec::new();
    job.push(monospace(name_of_type));
    job.push(proportional(" has no "));
    job.push(monospace("ReflectDefault"));
    job.push(proportional(" type data, so no value of it can be constructed."));
    job
}

/// The text of `not_in_type_registry`.
pub open spec fn not_in_type_registry_text(name_of_type: Seq<char>) -> Seq<(bool, Seq<char>)> {
    seq![(true, name_of_type), (false, " is not registered in the "@), (true, "TypeRegistry"@)]
}

/// The type is not registered.
pub fn not_in_type_registry(name_of_type: &str) -> (job: Vec<TextSegment>)
    ensures
        segment_texts(job@) == not_in_type_registry_text(name_of_type@),
{
    let mut job: Vec<TextSegment> = Vec::new();
    job.push(monospace(name_of_type));
    job.push(proportional(" is not registered in the "));
    job.push(monospace("TypeRegistry"));
    job
}

/// The text of `no_multiedit`.
pub open spec fn no_multiedit_text(name_of_type: Seq<char>) -> Seq<(bool, Seq<char>)> {
    seq![(true, name_of_type), (false, " doesn't support multi-editing."@)]
}

/// The type cannot be edited in several values at once.
pub fn no_multiedit(name_of_type: &str) -> (job: Vec<TextSegment>)
    ensures
        segment_texts(job@) == no_multiedit_text(name_of_type@),
{
    let mut job: Vec<TextSegment> = Vec::new();
    job.push(monospace(name_of_type));
    job.push(proportional(" doesn't support multi-editing."));
    job
}

/// Why the inspector's restricted view of the world could not hand out a value.
/// An entity is carried as the text it is printed as.
pub enum WorldViewError {
    NoAccessToResource,
    NoAccessToComponent { entity: String },
    ComponentDoesNotExist { entity: String },
    ResourceDoesNotExist,
    NoComponentId,
    NoTypeRegistration,
    NoTypeData { data: String },
}

/// The message for a value that the restricted world view could not hand out.
pub fn no_access(error: &WorldViewError, name_of_type: &str) -> (job: Vec<TextSegment>)
    ensures
        segment_texts(job@) == match error {
            WorldViewError::NoAccessToResource => no_access_resource_text(name_of_type@),
            WorldViewError::NoAccessToComponent { entity } => no_access_component_text(entity@, name_of_type@),
            WorldViewError::ComponentDoesNotExist { entity } => nonexistent_component_text(entity@, name_of_type@),
            WorldViewError::ResourceDoesNotExist => nonexistent_resource_text(name_of_type@),
            WorldViewError::NoComponentId => missing_componentid_text(name_of_type@),
            WorldViewError::NoTypeRegistration => not_in_type_registry_text(name_of_type@),
            WorldViewError::NoTypeData { data } => missing_typedata_text(name_of_type@, data@),
        },
{
    match error {
        WorldViewError::NoAccessToResource => no_access_resource(name_of_type),
        WorldViewError::NoAccessToComponent { entity } => no_access_component(entity.as_str(), name_of_type),
        WorldViewError::ComponentDoesNotExist { entity } => nonexistent_component(entity.as_str(), name_of_type),
        WorldViewError::ResourceDoesNotExist => nonexistent_resource(name_of_type),
        WorldViewError::NoComponentId => missing_componentid(name_of_type),
        WorldViewError::NoTypeRegistration => not_in_type_registry(name_of_type),
        WorldViewError::NoTypeData { data } => missing_typedata(name_of_type, data.as_str()),
    }
}

/// The text of `nonexistent_state`.
pub open spec fn nonexistent_state_text(name: Seq<char>) -> Seq<(bool, Seq<char>)> {
    seq![
        (false, "State "@),
        (true, name),
        (false, " does not exist. Did you forget to call "@),
        (true, ".add_state::<"@ + name + ">(..)"@),
        (false, "?"@),
    ]
}

/// A state does not exist.
pub fn nonexistent_state(name: &str) -> (job: Vec<TextSegment>)
    ensures
        segment_texts(job@) == nonexistent_state_text(name@),
{
    let mut call = ".add_state::<".to_string();
    call.append(name);
    call.append(">(..)");
    let mut job: Vec<TextSegment> = Vec::new();
    job.push(proportional("State "));
    job.push(monospace(name));
    job.push(proportional(" does not exist. Did you forget to call "));
    job.push(TextSegment { monospace: true, text: call });
    job.push(proportional("?"));
    job
}

/// The readable name of a type: its short path where the registry knows the
/// type, else the printed type id.
pub fn typeid_name(short_path: Option<&str>, printed_type_id: &str) -> (name: String)
    ensures
        name@ == match short_path {
            Some(p) => p@,
            None => printed_type_id@,
        },
{
    match short_path {
        Some(p) => p.to_string(),
        None => printed_type_id.to_string(),
    }
}

/// The text of `reflect_value_no_impl`.
pub open spec fn reflect_value_no_impl_text(reason: TypeDataError, name_of_type: Seq<char>) -> Seq<(bool, Seq<char>)> {
    let short = short_type_name(name_of_type);
    match reason {
        TypeDataError::NotFullyReflected => seq![
            (true, name_of_type),
            (false, " is "@),
            (true, "#[reflect(opaque)],\n"@),
            (false, "but not backed by a real rust type."@),
        ],
        _ => seq![
            (true, name_of_type),
            (false, " is "@),
            (true, "#[reflect(opaque)],\n"@),
            (false, "you need to register an "@),
            (true, "InspectorEguiImpl"@),
            (false, " in the "@),
            (true, "TypeRegistry"@),
            (false, " .\n\n"@),
            (false, "Try implementing "@),
            (true, "InspectorPrimitive for "@ + short),
            (false, "\nand call "@),
            (true, "app.register_type_data::<"@ + short + ", InspectorEguiImpl>"@),
            (false, "."@),
        ],
    }
}

/// An opaque value whose type has no custom inspector, and how to give it one.
pub fn reflect_value_no_impl(reason: &TypeDataError, name_of_type: &str) -> (job: Vec<TextSegment>)
    ensures
        segment_texts(job@) == reflect_value_no_impl_text(*reason, name_of_type@),
{
    let mut job: Vec<TextSegment> = Vec::new();
    job.push(monospace(name_of_type));
    job.push(proportional(" is "));
    job.push(monospace("#[reflect(opaque)],\n"));
    match reason {
        TypeDataError::NotFullyReflected => {
            job.push(proportional("but not backed by a real rust type."));
        },
        _ => {
            let short = pretty_type_name_str(name_of_type);
            let mut implement = "InspectorPrimitive for ".to_string();
            implement.append(short.as_str());
            let mut register = "app.register_type_data::<".to_string();
            register.append(short.as_str());
            register.append(", InspectorEguiImpl>");
            job.push(proportional("you need to register an "));
            job.push(monospace("InspectorEguiImpl"));
            job.push(proportional(" in the "));
            job.push(monospace("TypeRegistry"));
            job.push(proportional(" .\n\n"));
            job.push(proportional("Try implementing "));
            job.push(TextSegment { monospace: true, text: implement });
            job.push(proportional("\nand call "));
            job.push(TextSegment { monospace: true, text: register });
            job.push(proportional("."));
        },
    }
    job
}

/// The text of `unconstructable_variant`.
pub open spec fn unconstructable_variant_text(
    name_of_type: Seq<char>,
    variant: Seq<char>,
    fields: Seq<Seq<char>>,
) -> Seq<(bool, Seq<char>)> {
    seq![
        (true, short_type_name(name_of_type) + "::"@ + variant),
        (false, " has unconstructable fields.\nConsider adding "@),
        (true, "#[reflect(Default)]"@),
        (false, " to\n\n"@),
    ] + field_list_text(fields)
}

/// Each field type as a list item: a dash, then the type in monospace.
pub open spec fn field_list_text(fields: Seq<Seq<char>>) -> Seq<(bool, Seq<char>)>
    decreases fields.len(),
{
    if fields.len() == 0 {
        Seq::empty()
    } else {
        field_list_text(fields.drop_last()) + seq![(false, "- "@), (true, fields.last())]
    }
}

/// A variant whose fields cannot all be constructed, listing those fields.
pub fn unconstructable_variant(name_of_type: &str, variant: &str, fields: &Vec<String>) -> (job: Vec<TextSegment>)
    ensures
        segment_texts(job@) == unconstructable_variant_text(
            name_of_type@,
            variant@,
            fields@.map_values(|f: String| f@),
        ),
{
    let mut qualified = pretty_type_name_str(name_of_type);
    qualified.append("::");
    qualified.append(variant);
    let mut job: Vec<TextSegment> = Vec::new();
    job.push(TextSegment { monospace: true, text: qualified });
    job.push(proportional(" has unconstructable fields.\nConsider adding "));
    job.push(monospace("#[reflect(Default)]"));
    job.push(proportional(" to\n\n"));
    let ghost fs = fields@.map_values(|f: String| f@);
    let ghost head = segment_texts(job@);
    let mut i: usize = 0;
    while i < fields.len()
        invariant
            i <= fields.len(),
            fs == fields@.map_values(|f: String| f@),
            head.len() == 4,
            segment_texts(job@) == head + field_list_text(fs.subrange(0, i as int)),
        decreases fields.len() - i,
    {
        let ghost before = segment_texts(job@);
        let item = TextSegment { monospace: true, text: fields[i].clone() };
        job.push(proportional("- "));
        job.push(item);
        proof {
            assert(item.text@ == fs[i as int]);
            assert(segment_texts(job@) =~= before + seq![(false, "- "@), (true, fs[i as int])]);
            assert(fs.subrange(0, i + 1).last() == fs[i as int]);
            assert(fs.subrange(0, i + 1).drop_last() =~= fs.subrange(0, i as int));
            assert(segment_texts(job@) =~= head + field_list_text(fs.subrange(0, i + 1)));
        }
        i += 1;
    }
    proof {
        assert(fs.subrange(0, fields@.len() as int) =~= fs);
    }
    job
}

} // verus!
