//! The output pane: the log events it collects, which of them it shows, and
//! the text it shows for each.
use vstd::prelude::*;

use crate::text::{chars_less, lemma_chars_less_irreflexive, lemma_chars_less_total, lemma_chars_less_transitive, str_less};


verus! {

/// How severe a log event is.
#[derive(Clone, Copy, PartialEq, Eq, Structural)]
pub enum Level {
    Trace,
    Debug,
    Info,
    Warn,
    Error,
}

/// How verbose a level is: `Error` least, `Trace` most. Levels compare by it.
pub open spec fn verbosity(level: Level) -> int {
    match level {
        Level::Error => 0,
        Level::Warn => 1,
        Level::Info => 2,
        Level::Debug => 3,
        Level::Trace => 4,
    }
}

/// The levels run from the least verbose to the most: Error, Warn, Info,
/// Debug, Trace. So a collector or filter at any level keeps every error, and
/// only one at Trace keeps trace events.
pub proof fn law_levels_ordered()
    ensures
        verbosity(Level::Error) < verbosity(Level::Warn),
        verbosity(Level::Warn) < verbosity(Level::Info),
        verbosity(Level::Info) < verbosity(Level::Debug),
        verbosity(Level::Debug) < verbosity(Level::Trace),
        forall|l: Level| verbosity(Level::Error) <= #[trigger] verbosity(l) <= verbosity(Level::Trace),
{
    assert forall|l: Level| verbosity(Level::Error) <= #[trigger] verbosity(l) <= verbosity(Level::Trace) by {
        match l {
            Level::Trace => {},
            Level::Debug => {},
            Level::Info => {},
            Level::Warn => {},
            Level::Error => {},
        }
    }
}

impl Level {
    fn rank(self) -> (r: u8)
        ensures
            r == verbosity(self),
    {
        match self {
            Level::Error => 0,
            Level::Warn => 1,
            Level::Info => 2,
            Level::Debug => 3,
            Level::Trace => 4,
        }
    }

    /// Whether `self` is at most as verbose as `other`.
    pub fn at_most(self, other: Level) -> (r: bool)
        ensures
            r == (verbosity(self) <= verbosity(other)),
    {
        self.rank() <= other.rank()
    }

    /// The name of the level, in capitals.
    pub fn as_str(self) -> (s: String)
        ensures
            s@ == (match self {
                Level::Trace => "TRACE"@,
                Level::Debug => "DEBUG"@,
                Level::Info => "INFO"@,
                Level::Warn => "WARN"@,
                Level::Error => "ERROR"@,
            }),
    {
        match self {
            Level::Trace => "TRACE".to_string(),
            Level::Debug => "DEBUG".to_string(),
            Level::Info => "INFO".to_string(),
            Level::Warn => "WARN".to_string(),
            Level::Error => "ERROR".to_string(),
        }
    }

    /// The color in which the level's name is shown, as red, green and blue.
    pub fn to_color32(self) -> (c: (u8, u8, u8))
        ensures
            c == (match self {
                Level::Trace => (117u8, 80u8, 123u8),
                Level::Debug => (114u8, 159u8, 207u8),
                Level::Info => (78u8, 154u8, 6u8),
                Level::Warn => (196u8, 160u8, 0u8),
                Level::Error => (204u8, 0u8, 0u8),
            }),
    {
        match self {
            Level::Trace => (117, 80, 123),
            Level::Debug => (114, 159, 207),
            Level::Info => (78, 154, 6),
            Level::Warn => (196, 160, 0),
            Level::Error => (204, 0, 0),
        }
    }
}

/// Which levels the output pane shows.
#[derive(Clone, Copy, PartialEq, Eq, Structural)]
pub struct LevelFilter {
    pub trace: bool,
    pub debug: bool,
    pub info: bool,
    pub warn: bool,
    pub error: bool,
}

/// Whether `filter` shows events of `level`.
pub open spec fn shows_level(filter: LevelFilter, level: Level) -> bool {
    match level {
        Level::Trace => filter.trace,
        Level::Debug => filter.debug,
        Level::Info => filter.info,
        Level::Warn => filter.warn,
        Level::Error => filter.error,
    }
}

impl LevelFilter {
    /// Every level shown.
    pub fn default_filter() -> (f: Self)
        ensures
            forall|l: Level| shows_level(f, l),
    {
        LevelFilter { trace: true, debug: true, info: true, warn: true, error: true }
    }

    /// Whether events of `level` are shown.
    pub fn get(&self, level: Level) -> (r: bool)
        ensures
            r == shows_level(*self, level),
    {
        match level {
            Level::Trace => self.trace,
            Level::Debug => self.debug,
            Level::Info => self.info,
            Level::Warn => self.warn,
            Level::Error => self.error,
        }
    }
}

/// What the output pane remembers between frames.
pub struct LogsState {
    pub level_filter: LevelFilter,
}

impl LogsState {
    /// Every level shown.
    pub fn default_state() -> (s: Self)
        ensures
            forall|l: Level| shows_level(s.level_filter, l),
    {
        LogsState { level_filter: LevelFilter::default_filter() }
    }
}

/// A log event: its level, its fields (each name with its value) ordered by
/// name, each name once, and when it happened.
pub struct CollectedEvent<T> {
    level: Level,
    fields: Vec<(String, String)>,
    time: T,
}

/// Whether the names of `fields` are strictly ascending, so that each name
/// occurs once.
pub open spec fn names_ascending(fields: Seq<(String, String)>) -> bool {
    forall|i: int, j: int|
        0 <= i < j < fields.len() ==> chars_less(#[trigger] fields[i].0@, #[trigger] fields[j].0@)
}

/// The value of each name in `fields`: where a name occurs more than once,
/// its last value.
pub open spec fn fields_by_name(fields: Seq<(String, String)>) -> Map<Seq<char>, Seq<char>>
    decreases fields.len(),
{
    if fields.len() == 0 {
        Map::empty()
    } else {
        fields_by_name(fields.drop_last()).insert(fields.last().0@, fields.last().1@)
    }
}

/// Whether some field of `fields` is named `x`.
pub open spec fn has_name(fields: Seq<(String, String)>, x: Seq<char>) -> bool {
    exists|j: int| 0 <= j < fields.len() && #[trigger] fields[j].0@ == x
}

/// Where each name occurs once, `fields_by_name` holds exactly the names of
/// `fields`, each with its value.
proof fn lemma_fields_by_name_of_ascending(fields: Seq<(String, String)>)
    requires
        names_ascending(fields),
    ensures
        forall|x: Seq<char>| #[trigger] fields_by_name(fields).contains_key(x) <==> has_name(fields, x),
        forall|j: int|
            0 <= j < fields.len() ==> fields_by_name(fields)[#[trigger] fields[j].0@] == fields[j].1@,
    decreases fields.len(),
{
    if fields.len() > 0 {
        let s = fields.drop_last();
        let n = fields.len() - 1;
        assert(names_ascending(s)) by {
            assert forall|i: int, j: int| 0 <= i < j < s.len() implies chars_less(
                #[trigger] s[i].0@,
                #[trigger] s[j].0@,
            ) by {
                assert(s[i] == fields[i] && s[j] == fields[j]);
            }
        }
        lemma_fields_by_name_of_ascending(s);
        assert forall|x: Seq<char>| #[trigger] fields_by_name(fields).contains_key(x) <==> has_name(fields, x) by {
            if fields_by_name(fields).contains_key(x) && x != fields[n].0@ {
                assert(fields_by_name(s).contains_key(x));
                let j = choose|j: int| 0 <= j < s.len() && s[j].0@ == x;
                assert(fields[j] == s[j]);
            }
            if has_name(fields, x) {
                let j = choose|j: int| 0 <= j < fields.len() && fields[j].0@ == x;
                if j < n {
                    assert(s[j] == fields[j]);
                }
            } else {
                assert(fields[n].0@ != x);
            }
        }
        assert forall|j: int| 0 <= j < fields.len() implies fields_by_name(fields)[#[trigger] fields[j].0@]
            == fields[j].1@ by {
            if j < n {
                assert(s[j] == fields[j]);
                assert(chars_less(fields[j].0@, fields[n].0@));
                lemma_chars_less_irreflexive(fields[j].0@);
            }
        }
    }
}

/// Two ascending lists of fields with the same names and values are equal
/// as maps.
proof fn lemma_same_fields_by_name(a: Seq<(String, String)>, b: Seq<(String, String)>, k: Seq<char>, v: Seq<char>)
    requires
        names_ascending(a),
        names_ascending(b),
        forall|x: Seq<char>| #[trigger] has_name(b, x) <==> (x == k || has_name(a, x)),
        forall|j: int| 0 <= j < b.len() && b[j].0@ != k ==> exists|i: int|
            0 <= i < a.len() && #[trigger] a[i].0@ == #[trigger] b[j].0@ && a[i].1@ == b[j].1@,
        exists|j: int| 0 <= j < b.len() && #[trigger] b[j].0@ == k && b[j].1@ == v,
    ensures
        fields_by_name(b) =~= fields_by_name(a).insert(k, v),
{
    lemma_fields_by_name_of_ascending(a);
    lemma_fields_by_name_of_ascending(b);
    let ma = fields_by_name(a);
    let mb = fields_by_name(b);
    assert forall|x: Seq<char>| mb.contains_key(x) <==> ma.insert(k, v).contains_key(x) by {
        assert(mb.contains_key(x) == has_name(b, x));
        assert(ma.contains_key(x) == has_name(a, x));
    }
    assert forall|x: Seq<char>| #[trigger] mb.contains_key(x) implies mb[x] == ma.insert(k, v)[x] by {
        let j = choose|j: int| 0 <= j < b.len() && b[j].0@ == x;
        if x == k {
            let jk = choose|j: int| 0 <= j < b.len() && #[trigger] b[j].0@ == k && b[j].1@ == v;
            assert(mb[b[jk].0@] == b[jk].1@);
        } else {
            let i = choose|i: int| 0 <= i < a.len() && #[trigger] a[i].0@ == #[trigger] b[j].0@ && a[i].1@ == b[j].1@;
            assert(ma[a[i].0@] == a[i].1@);
            assert(mb[b[j].0@] == b[j].1@);
        }
    }
}

impl<T> CollectedEvent<T> {
    #[verifier::type_invariant]
    spec fn names_once(&self) -> bool {
        names_ascending(self.fields@)
    }

    /// The event's level.
    pub closed spec fn event_level(&self) -> Level {
        self.level
    }

    /// The event's fields, ordered by name.
    pub closed spec fn event_fields(&self) -> Seq<(String, String)> {
        self.fields@
    }

    /// When the event happened.
    pub closed spec fn event_time(&self) -> T {
        self.time
    }

    /// The event of `level` at `time` with `fields`, ordered by name; where a
    /// name occurs more than once, its last value is kept.
    pub fn new(level: Level, fields: Vec<(String, String)>, time: T) -> (e: Self)
        ensures
            e.event_level() == level,
            e.event_time() == time,
            names_ascending(e.event_fields()),
            fields_by_name(e.event_fields()) == fields_by_name(fields@),
    {
        let mut out: Vec<(String, String)> = Vec::new();
        let mut i: usize = 0;
        while i < fields.len()
            invariant
                i <= fields.len(),
                names_ascending(out@),
                fields_by_name(out@) == fields_by_name(fields@.subrange(0, i as int)),
            decreases fields.len() - i,
        {
            let name = fields[i].0.clone();
            let value = fields[i].1.clone();
            let mut p: usize = 0;
            while p < out.len() && str_less(out[p].0.as_str(), name.as_str())
                invariant
                    p <= out.len(),
                    names_ascending(out@),
                    forall|a: int| 0 <= a < p ==> chars_less(#[trigger] out@[a].0@, name@),
                decreases out.len() - p,
            {
                p += 1;
            }
            let ghost before = out@;
            let replace = p < out.len() && !str_less(name.as_str(), out[p].0.as_str());
            if replace {
                proof {
                    if out@[p as int].0@ != name@ {
                        lemma_chars_less_total(out@[p as int].0@, name@);
                    }
                }
                out.set(p, (name, value));
            } else {
                proof {
                    if p < out@.len() {
                        lemma_chars_less_total(out@[p as int].0@, name@);
                        lemma_chars_less_irreflexive(name@);
                    }
                }
                out.insert(p, (name, value));
            }
            proof {
                let k = fields@[i as int].0@;
                let v = fields@[i as int].1@;
                assert(names_ascending(out@)) by {
                    assert forall|a: int, b: int| 0 <= a < b < out@.len() implies chars_less(
                        #[trigger] out@[a].0@,
                        #[trigger] out@[b].0@,
                    ) by {
                        if replace {
                            if a == p {
                                if p + 1 <= b {
                                    assert(chars_less(before[p as int].0@, before[b].0@));
                                }
                            } else if b == p {
                                assert(chars_less(before[a].0@, name@));
                            }
                        } else {
                            if a < p && b == p {
                            } else if a < p && b > p {
                                assert(out@[b] == before[b - 1]);
                                if b - 1 == p as int {
                                    lemma_chars_less_transitive(before[a].0@, name@, before[b - 1].0@);
                                } else {
                                    lemma_chars_less_transitive(before[a].0@, name@, before[p as int].0@);
                                    lemma_chars_less_transitive(before[a].0@, before[p as int].0@, before[b - 1].0@);
                                }
                            } else if a == p {
                                assert(out@[b] == before[b - 1]);
                                if b - 1 > p {
                                    lemma_chars_less_transitive(name@, before[p as int].0@, before[b - 1].0@);
                                }
                            } else if a > p {
                                assert(out@[a] == before[a - 1]);
                                assert(out@[b] == before[b - 1]);
                            }
                        }
                    }
                }
                assert(fields@.subrange(0, i + 1).drop_last() =~= fields@.subrange(0, i as int));
                assert(name@ == k && value@ == v);
                if replace {
                    assert(out@[p as int].0@ == k);
                    assert(before[p as int].0@ == k);
                    assert forall|x: Seq<char>| #[trigger] has_name(out@, x) <==> (x == k || has_name(before, x)) by {
                        if has_name(out@, x) {
                            let j = choose|j: int| 0 <= j < out@.len() && #[trigger] out@[j].0@ == x;
                            if j != p {
                                assert(before[j] == out@[j]);
                            }
                        }
                        if has_name(before, x) {
                            let j = choose|j: int| 0 <= j < before.len() && #[trigger] before[j].0@ == x;
                            if j != p {
                                assert(out@[j] == before[j]);
                            }
                        }
                        if x == k {
                            assert(out@[p as int].0@ == x);
                        }
                    }
                    assert forall|j: int| 0 <= j < out@.len() && out@[j].0@ != k implies exists|i2: int|
                        0 <= i2 < before.len() && #[trigger] before[i2].0@ == #[trigger] out@[j].0@
                            && before[i2].1@ == out@[j].1@ by {
                        assert(before[j] == out@[j]);
                    }
                    lemma_same_fields_by_name(before, out@, k, v);
                } else {
                    assert(out@[p as int].0@ == k);
                    assert forall|x: Seq<char>| #[trigger] has_name(out@, x) <==> (x == k || has_name(before, x)) by {
                        if has_name(out@, x) {
                            let j = choose|j: int| 0 <= j < out@.len() && #[trigger] out@[j].0@ == x;
                            if j < p {
                                assert(before[j] == out@[j]);
                            } else if j > p {
                                assert(before[j - 1] == out@[j]);
                            }
                        }
                        if has_name(before, x) {
                            let j = choose|j: int| 0 <= j < before.len() && #[trigger] before[j].0@ == x;
                            if j < p {
                                assert(out@[j] == before[j]);
                            } else {
                                assert(out@[j + 1] == before[j]);
                            }
                        }
                    }
                    assert forall|j: int| 0 <= j < out@.len() && out@[j].0@ != k implies exists|i2: int|
                        0 <= i2 < before.len() && #[trigger] before[i2].0@ == #[trigger] out@[j].0@
                            && before[i2].1@ == out@[j].1@ by {
                        if j < p {
                            assert(before[j] == out@[j]);
                        } else {
                            assert(before[j - 1] == out@[j]);
                        }
                    }
                    lemma_same_fields_by_name(before, out@, k, v);
                }
            }
            i += 1;
        }
        proof {
            assert(fields@.subrange(0, fields@.len() as int) =~= fields@);
        }
        CollectedEvent { level, fields: out, time }
    }

    /// The event's level.
    pub fn level(&self) -> (l: Level)
        ensures
            l == self.event_level(),
    {
        self.level
    }

    /// The event's fields, ordered by name, each name once.
    pub fn fields(&self) -> (f: &Vec<(String, String)>)
        ensures
            f@ == self.event_fields(),
            names_ascending(f@),
    {
        proof {
            use_type_invariant(self);
        }
        &self.fields
    }

    /// When the event happened.
    pub fn time(&self) -> (t: &T)
        ensures
            *t == self.event_time(),
    {
        &self.time
    }
}

/// The log events collected for the output pane, at most as verbose as `level`.
pub struct EventCollector<T> {
    level: Level,
    events: Vec<CollectedEvent<T>>,
}

impl<T> EventCollector<T> {
    /// The most verbose level collected.
    pub closed spec fn threshold(&self) -> Level {
        self.level
    }

    /// The events collected, in their order.
    pub closed spec fn collected(&self) -> Seq<CollectedEvent<T>> {
        self.events@
    }

    /// A collector of every event.
    pub fn new() -> (c: Self)
        ensures
            c.threshold() == Level::Trace,
            c.collected().len() == 0,
    {
        EventCollector { level: Level::Trace, events: Vec::new() }
    }

    /// The collector, collecting events at most as verbose as `level`.
    pub fn with_level(self, level: Level) -> (c: Self)
        ensures
            c.threshold() == level,
            c.collected() == self.collected(),
    {
        EventCollector { level, events: self.events }
    }

    /// The events collected.
    pub fn events(&self) -> (es: &Vec<CollectedEvent<T>>)
        ensures
            es@ == self.collected(),
    {
        &self.events
    }

    /// Forgets the events collected.
    pub fn clear(&mut self)
        ensures
            final(self).threshold() == old(self).threshold(),
            final(self).collected().len() == 0,
    {
        self.events = Vec::new();
    }

    /// Keeps `event` where it is at most as verbose as the collector's level.
    pub fn collect(&mut self, event: CollectedEvent<T>)
        ensures
            final(self).threshold() == old(self).threshold(),
            final(self).collected() == (if verbosity(event.event_level()) <= verbosity(old(self).threshold()) {
                old(self).collected().push(event)
            } else {
                old(self).collected()
            }),
    {
        if event.level().at_most(self.level) {
            self.events.push(event);
        }
    }
}

/// The indices of the events that `filter` shows, in their order.
pub fn filter_events<T>(events: &Vec<CollectedEvent<T>>, filter: &LevelFilter) -> (shown: Vec<usize>)
    ensures
        forall|t: int| 0 <= t < shown@.len() ==> #[trigger] shown@[t] < events@.len() && shows_level(
            *filter,
            events@[shown@[t] as int].event_level(),
        ),
        forall|i: int| 0 <= i < events@.len() && shows_level(*filter, #[trigger] events@[i].event_level()) ==> exists|t: int|
            0 <= t < shown@.len() && shown@[t] == i,
        forall|a: int, b: int| 0 <= a < b < shown@.len() ==> shown@[a] < shown@[b],
{
    let mut shown: Vec<usize> = Vec::new();
    let mut i: usize = 0;
    while i < events.len()
        invariant
            i <= events.len(),
            forall|t: int| 0 <= t < shown@.len() ==> #[trigger] shown@[t] < i && shows_level(
                *filter,
                events@[shown@[t] as int].event_level(),
            ),
            forall|j: int| 0 <= j < i && shows_level(*filter, #[trigger] events@[j].event_level()) ==> exists|t: int|
                0 <= t < shown@.len() && shown@[t] == j,
            forall|a: int, b: int| 0 <= a < b < shown@.len() ==> shown@[a] < shown@[b],
        decreases events.len() - i,
    {
        let ghost s0 = shown@;
        if filter.get(events[i].level()) {
            shown.push(i);
        }
        proof {
            assert forall|j: int| 0 <= j < i + 1 && shows_level(*filter, #[trigger] events@[j].event_level()) implies exists|t: int|
                0 <= t < shown@.len() && shown@[t] == j by {
                if j < i {
                    let t = choose|t: int| 0 <= t < s0.len() && s0[t] == j;
                    assert(shown@[t] == j);
                } else {
                    assert(shown@[shown@.len() - 1] == j);
                }
            }
        }
        i += 1;
    }
    shown
}

/// Whether `c` is whitespace: it has the Unicode property White_Space, as
/// `char::is_whitespace` and `str::trim` read it.
pub open spec fn is_white_space(c: char) -> bool {
    let n = c as u32;
    ||| 0x9 <= n <= 0xD
    ||| n == 0x20
    ||| n == 0x85
    ||| n == 0xA0
    ||| n == 0x1680
    ||| 0x2000 <= n <= 0x200A
    ||| n == 0x2028
    ||| n == 0x2029
    ||| n == 0x202F
    ||| n == 0x205F
    ||| n == 0x3000
}

fn white_space(c: char) -> (r: bool)
    ensures
        r == is_white_space(c),
{
    let n = c as u32;
    (0x9 <= n && n <= 0xD) || n == 0x20 || n == 0x85 || n == 0xA0 || n == 0x1680 || (0x2000 <= n
        && n <= 0x200A) || n == 0x2028 || n == 0x2029 || n == 0x202F || n == 0x205F || n == 0x3000
}

/// `s` without its leading whitespace.
pub open spec fn trim_start(s: Seq<char>) -> Seq<char>
    decreases s.len(),
{
    if s.len() > 0 && is_white_space(s[0]) {
        trim_start(s.drop_first())
    } else {
        s
    }
}

/// `s` without its trailing whitespace.
pub open spec fn trim_end(s: Seq<char>) -> Seq<char>
    decreases s.len(),
{
    if s.len() > 0 && is_white_space(s.last()) {
        trim_end(s.drop_last())
    } else {
        s
    }
}

/// `s` without leading and trailing whitespace, as `str::trim` gives it.
pub open spec fn trimmed(s: Seq<char>) -> Seq<char> {
    trim_end(trim_start(s))
}

/// `s` without leading and trailing whitespace.
fn trim_text(s: &str) -> (r: String)
    ensures
        r@ == trimmed(s@),
{
    let n = s.unicode_len();
    let mut start: usize = 0;
    proof {
        assert(s@.subrange(0, n as int) =~= s@);
    }
    while start < n && white_space(s.get_char(start))
        invariant
            n == s@.len(),
            start <= n,
            trim_start(s@) == trim_start(s@.subrange(start as int, n as int)),
        decreases n - start,
    {
        proof {
            assert(s@.subrange(start as int, n as int).drop_first() =~= s@.subrange(start + 1, n as int));
        }
        start += 1;
    }
    let mut end: usize = n;
    while end > start && white_space(s.get_char(end - 1))
        invariant
            n == s@.len(),
            start <= end <= n,
            trim_start(s@) == s@.subrange(start as int, n as int),
            trim_end(s@.subrange(start as int, n as int)) == trim_end(s@.subrange(start as int, end as int)),
        decreases end - start,
    {
        proof {
            assert(s@.subrange(start as int, end as int).drop_last() =~= s@.subrange(
                start as int,
                end - 1,
            ));
        }
        end -= 1;
    }
    let sub = s.substring_char(start, end);
    String::from_str(sub)
}

/// Whether a field is one that the `log` crate adds: its name starts with "log.".
pub open spec fn is_log_field(key: Seq<char>) -> bool {
    key.len() >= 4 && key.subrange(0, 4) == "log."@
}

/// Whether `key` starts with "log.".
pub fn starts_with_log(key: &str) -> (r: bool)
    ensures
        r == is_log_field(key@),
{
    proof {
        reveal_strlit("log.");
    }
    if key.unicode_len() < 4 {
        return false;
    }
    let r = key.get_char(0) == 'l' && key.get_char(1) == 'o' && key.get_char(2) == 'g' && key.get_char(3) == '.';
    proof {
        if r {
            assert(key@.subrange(0, 4) =~= "log."@);
        } else {
            if key@.subrange(0, 4) == "log."@ {
                assert(key@.subrange(0, 4)[0] == 'l');
                assert(key@.subrange(0, 4)[1] == 'o');
                assert(key@.subrange(0, 4)[2] == 'g');
                assert(key@.subrange(0, 4)[3] == '.');
            }
        }
    }
    r
}

/// The value of the first field named "message".
pub open spec fn message_field(fields: Seq<(String, String)>) -> Option<Seq<char>>
    decreases fields.len(),
{
    if fields.len() == 0 {
        None
    } else {
        match message_field(fields.drop_last()) {
            Some(m) => Some(m),
            None => if fields.last().0@ == "message"@ {
                Some(fields.last().1@)
            } else {
                None
            },
        }
    }
}

/// A field on a line of its own.
pub open spec fn field_line(key: Seq<char>, value: Seq<char>) -> Seq<char> {
    "\n "@ + key + ": "@ + value
}

/// A field appended to a one-line summary.
pub open spec fn field_suffix(key: Seq<char>, value: Seq<char>) -> Seq<char> {
    ", "@ + key + ": "@ + value
}

/// The fields other than the message and the `log` crate's, each as
/// `each(key, value)`, in their order.
pub open spec fn other_fields(fields: Seq<(String, String)>, on_lines: bool) -> Seq<char>
    decreases fields.len(),
{
    if fields.len() == 0 {
        Seq::empty()
    } else {
        let (k, v) = fields.last();
        other_fields(fields.drop_last(), on_lines) + if k@ == "message"@ || is_log_field(k@) {
            Seq::empty()
        } else if on_lines {
            field_line(k@, v@)
        } else {
            field_suffix(k@, v@)
        }
    }
}

/// The `log` crate's fields, each on a line of its own, in their order.
pub open spec fn log_fields(fields: Seq<(String, String)>) -> Seq<char>
    decreases fields.len(),
{
    if fields.len() == 0 {
        Seq::empty()
    } else {
        let (k, v) = fields.last();
        log_fields(fields.drop_last()) + if k@ != "message"@ && is_log_field(k@) {
            field_line(k@, v@)
        } else {
            Seq::empty()
        }
    }
}

/// The trimmed message of an event, or nothing.
pub open spec fn message_text(fields: Seq<(String, String)>) -> Seq<char> {
    match message_field(fields) {
        Some(m) => trimmed(m),
        None => Seq::empty(),
    }
}

/// The one-line text of an event: its message and its other fields.
pub open spec fn short_message(fields: Seq<(String, String)>) -> Seq<char> {
    message_text(fields) + other_fields(fields, false)
}

/// The full text of an event: its message, its other fields on lines of
/// their own, a blank line, and the `log` crate's fields.
pub open spec fn complete_message(fields: Seq<(String, String)>) -> Seq<char> {
    message_text(fields) + other_fields(fields, true) + "\n\n"@ + log_fields(fields)
}

/// The texts the output pane shows for an event with these fields: the line
/// it shows, and the text shown when hovering over it.
pub fn event_messages(fields: &Vec<(String, String)>) -> (r: (String, String))
    ensures
        r.0@ == short_message(fields@),
        r.1@ == complete_message(fields@),
{
    let message_key = "message".to_string();
    let mut message: Option<usize> = None;
    let mut i: usize = 0;
    while i < fields.len()
        invariant
            i <= fields.len(),
            message_key@ == "message"@,
            match message {
                Some(m) => m < i && message_field(fields@.take(i as int)) == Some(fields@[m as int].1@),
                None => message_field(fields@.take(i as int)) is None,
            },
        decreases fields.len() - i,
    {
        proof {
            assert(fields@.take(i + 1).drop_last() =~= fields@.take(i as int));
            assert(fields@.take(i + 1).last() == fields@[i as int]);
        }
        if message.is_none() && fields[i].0 == message_key {
            message = Some(i);
        }
        i += 1;
    }
    proof {
        assert(fields@.take(fields@.len() as int) =~= fields@);
    }
    let mut short = match message {
        Some(m) => trim_text(fields[m].1.as_str()),
        None => String::new(),
    };
    let mut complete = match message {
        Some(m) => trim_text(fields[m].1.as_str()),
        None => String::new(),
    };
    let mut log = String::new();
    let ghost msg = message_text(fields@);
    let mut j: usize = 0;
    while j < fields.len()
        invariant
            j <= fields.len(),
            message_key@ == "message"@,
            short@ == msg + other_fields(fields@.take(j as int), false),
            complete@ == msg + other_fields(fields@.take(j as int), true),
            log@ == log_fields(fields@.take(j as int)),
        decreases fields.len() - j,
    {
        proof {
            assert(fields@.take(j + 1).drop_last() =~= fields@.take(j as int));
            assert(fields@.take(j + 1).last() == fields@[j as int]);
        }
        let key = &fields[j].0;
        let value = &fields[j].1;
        let ghost (s0, c0, l0) = (short@, complete@, log@);
        if !(*key == message_key) {
            if starts_with_log(key.as_str()) {
                log.append("\n ");
                log.append(key.as_str());
                log.append(": ");
                log.append(value.as_str());
            } else {
                short.append(", ");
                short.append(key.as_str());
                short.append(": ");
                short.append(value.as_str());
                complete.append("\n ");
                complete.append(key.as_str());
                complete.append(": ");
                complete.append(value.as_str());
            }
        }
        proof {
            let t = fields@.take(j + 1);
            let k = fields@[j as int].0@;
            let v = fields@[j as int].1@;
            if k == "message"@ {
                assert(short@ =~= s0 + Seq::<char>::empty());
                assert(complete@ =~= c0 + Seq::<char>::empty());
                assert(log@ =~= l0 + Seq::<char>::empty());
            } else if is_log_field(k) {
                assert(log@ =~= l0 + field_line(k, v));
                assert(short@ =~= s0 + Seq::<char>::empty());
                assert(complete@ =~= c0 + Seq::<char>::empty());
            } else {
                assert(short@ =~= s0 + field_suffix(k, v));
                assert(complete@ =~= c0 + field_line(k, v));
                assert(log@ =~= l0 + Seq::<char>::empty());
            }
            assert(short@ =~= msg + other_fields(t, false));
            assert(complete@ =~= msg + other_fields(t, true));
            assert(log@ =~= log_fields(t));
        }
        j += 1;
    }
    proof {
        assert(fields@.take(fields@.len() as int) =~= fields@);
    }
    complete.append("\n\n");
    complete.append(log.as_str());
    (short, complete)
}

/// The output pane.
pub struct OutputPane;

/// The widget that lists the collected log events.
pub struct Logs;

} // verus!
