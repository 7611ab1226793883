//! Recorded errors: a bounded log, queries over it, and the reports that
//! summarise it. Timestamps are nanoseconds since the Unix epoch.
use vstd::prelude::*;
use std::collections::VecDeque;
use crate::keyed::{entries_view, find_key, index_of_key, keys_of, lemma_index_of_key};
use crate::platform::{local_time_text, unix_now_nanos};
use crate::text::{decimal, str_eq, strings_view, u64_to_decimal};

verus! {

/// The most errors the log keeps; older ones are dropped first.
pub const MAX_ERRORS: usize = 1000;

/// One recorded error, with optional context entries.
#[derive(Debug, Clone)]
pub struct ErrorRecord {
    pub timestamp: u64,
    pub module: String,
    pub error_type: String,
    pub message: String,
    pub context: Option<Vec<(String, String)>>,
}

pub struct ErrorRecordView {
    pub timestamp: u64,
    pub module: Seq<char>,
    pub error_type: Seq<char>,
    pub message: Seq<char>,
    pub context: Option<Seq<(Seq<char>, Seq<char>)>>,
}

impl View for ErrorRecord {
    type V = ErrorRecordView;

    open spec fn view(&self) -> ErrorRecordView {
        ErrorRecordView {
            timestamp: self.timestamp,
            module: self.module@,
            error_type: self.error_type@,
            message: self.message@,
            context: match self.context {
                Some(c) => Some(entries_view(c@)),
                None => None,
            },
        }
    }
}

/// The views of a list of records.
pub open spec fn records_view(v: Seq<ErrorRecord>) -> Seq<ErrorRecordView> {
    v.map_values(|e: ErrorRecord| e@)
}

fn copy_pairs(v: &Vec<(String, String)>) -> (r: Vec<(String, String)>)
    ensures
        entries_view(r@) == entries_view(v@),
{
    let mut r: Vec<(String, String)> = Vec::new();
    let mut i: usize = 0;
    while i < v.len()
        invariant
            i <= v.len(),
            entries_view(r@) == entries_view(v@).take(i as int),
        decreases v.len() - i,
    {
        let k = v[i].0.clone();
        let w = v[i].1.clone();
        let ghost before = r@;
        r.push((k, w));
        assert(entries_view(r@) =~= entries_view(before).push(entries_view(v@)[i as int]));
        assert(entries_view(r@) =~= entries_view(v@).take(i + 1));
        i = i + 1;
    }
    assert(entries_view(v@).take(v.len() as int) =~= entries_view(v@));
    r
}

impl ErrorRecord {
    /// A copy of this record.
    pub fn duplicate(&self) -> (r: ErrorRecord)
        ensures
            r@ == self@,
    {
        ErrorRecord {
            timestamp: self.timestamp,
            module: self.module.clone(),
            error_type: self.error_type.clone(),
            message: self.message.clone(),
            context: match &self.context {
                Some(c) => Some(copy_pairs(c)),
                None => None,
            },
        }
    }
}

/// The recorded errors, oldest first.
#[derive(Debug)]
pub struct ErrorLog {
    pub records: VecDeque<ErrorRecord>,
}

impl View for ErrorLog {
    type V = Seq<ErrorRecordView>;

    open spec fn view(&self) -> Seq<ErrorRecordView> {
        records_view(self.records@)
    }
}

impl ErrorLog {
    /// The log never holds more than `MAX_ERRORS` records.
    pub open spec fn wf(&self) -> bool {
        self.records@.len() <= MAX_ERRORS
    }

    /// An empty log.
    pub fn new() -> (log: ErrorLog)
        ensures
            log.wf(),
            log@ == Seq::<ErrorRecordView>::empty(),
    {
        let log = ErrorLog { records: VecDeque::new() };
        assert(log@ =~= Seq::<ErrorRecordView>::empty());
        log
    }
}

/// A list of records after appending, with the oldest dropped once it
/// grows past `MAX_ERRORS`.
pub open spec fn capped(s: Seq<ErrorRecordView>) -> Seq<ErrorRecordView> {
    if s.len() > MAX_ERRORS {
        s.drop_first()
    } else {
        s
    }
}

/// The record made from the given fields at time `t`.
pub open spec fn made_record(
    t: u64,
    module: Seq<char>,
    error_type: Seq<char>,
    message: Seq<char>,
    context: Option<Seq<(Seq<char>, Seq<char>)>>,
) -> ErrorRecordView {
    ErrorRecordView { timestamp: t, module, error_type, message, context }
}

/// The view of an optional context.
pub open spec fn context_view(c: Option<Vec<(String, String)>>) -> Option<Seq<(Seq<char>, Seq<char>)>> {
    match c {
        Some(v) => Some(entries_view(v@)),
        None => None,
    }
}

/// Records an error at time `now`.
pub fn record_error_at(
    log: &mut ErrorLog,
    module: &str,
    error_type: &str,
    message: &str,
    context: Option<Vec<(String, String)>>,
    now: u64,
)
    requires
        old(log).wf(),
    ensures
        final(log).wf(),
        final(log)@ == capped(old(log)@.push(made_record(now, module@, error_type@, message@, context_view(context)))),
{
    let ghost before = log@;
    let rec = ErrorRecord {
        timestamp: now,
        module: String::from_str(module),
        error_type: String::from_str(error_type),
        message: String::from_str(message),
        context,
    };
    let ghost rv = rec@;
    log.records.push_back(rec);
    assert(log@ =~= before.push(rv));
    if log.records.len() > MAX_ERRORS {
        let _oldest = log.records.pop_front();
        assert(log@ =~= before.push(rv).drop_first());
    }
}

/// Records an error at the current time.
pub fn record_error(
    log: &mut ErrorLog,
    module: &str,
    error_type: &str,
    message: &str,
    context: Option<Vec<(String, String)>>,
)
    requires
        old(log).wf(),
    ensures
        final(log).wf(),
        exists|t: u64| final(log)@ == capped(
            old(log)@.push(#[trigger] made_record(t, module@, error_type@, message@, context_view(context))),
        ),
{
    let ghost cv = context_view(context);
    let now = unix_now_nanos();
    record_error_at(log, module, error_type, message, context, now);
    assert(final(log)@ == capped(old(log)@.push(made_record(now, module@, error_type@, message@, cv))));
}

/// Records a plain error of type "error" with no context.
pub fn register_simple_error(log: &mut ErrorLog, module: &str, message: &str)
    requires
        old(log).wf(),
    ensures
        final(log).wf(),
        exists|t: u64| final(log)@ == capped(old(log)@.push(#[trigger] made_record(t, module@, "error"@, message@, None))),
{
    record_error(log, module, "error", message, None);
}

/// How many errors are recorded.
pub fn get_error_count(log: &ErrorLog) -> (n: usize)
    ensures
        n == log@.len(),
{
    log.records.len()
}

/// Forgets every recorded error.
pub fn clear_errors(log: &mut ErrorLog)
    ensures
        final(log).wf(),
        final(log)@ == Seq::<ErrorRecordView>::empty(),
{
    log.records.clear();
    assert(log@ =~= Seq::<ErrorRecordView>::empty());
}

/// Which records a query keeps.
pub enum Selector<'a> {
    Module(&'a str),
    Type(&'a str),
    Within { now: u64, span: u64 },
}

/// Whether a record is no older than `span` at time `now` (and not from
/// the future).
pub open spec fn recent(e: ErrorRecordView, now: u64, span: u64) -> bool {
    now >= e.timestamp && now - e.timestamp <= span
}

/// Whether the query keeps record `e`.
pub open spec fn selects(sel: Selector, e: ErrorRecordView) -> bool {
    match sel {
        Selector::Module(m) => e.module == m@,
        Selector::Type(t) => e.error_type == t@,
        Selector::Within { now, span } => recent(e, now, span),
    }
}

/// The records that satisfy `p`, in order.
pub open spec fn kept(s: Seq<ErrorRecordView>, p: spec_fn(ErrorRecordView) -> bool) -> Seq<ErrorRecordView>
    decreases s.len(),
{
    if s.len() == 0 {
        Seq::empty()
    } else {
        let r = kept(s.drop_last(), p);
        if p(s.last()) {
            r.push(s.last())
        } else {
            r
        }
    }
}

fn select(log: &ErrorLog, sel: Selector) -> (r: Vec<ErrorRecord>)
    ensures
        records_view(r@) == kept(log@, |e: ErrorRecordView| selects(sel, e)),
{
    let ghost p = |e: ErrorRecordView| selects(sel, e);
    let ghost s = log@;
    let mut r: Vec<ErrorRecord> = Vec::new();
    let mut i: usize = 0;
    while i < log.records.len()
        invariant
            i <= log.records@.len(),
            s == log@,
            p == (|e: ErrorRecordView| selects(sel, e)),
            records_view(r@) == kept(s.take(i as int), p),
        decreases log.records@.len() - i,
    {
        let e = &log.records[i];
        proof {
            assert(s.take(i + 1).drop_last() =~= s.take(i as int));
            assert(s.take(i + 1).last() == e@);
        }
        let keep = match sel {
            Selector::Module(m) => str_eq(e.module.as_str(), m),
            Selector::Type(t) => str_eq(e.error_type.as_str(), t),
            Selector::Within { now, span } => now >= e.timestamp && now - e.timestamp <= span,
        };
        if keep {
            let ghost before = r@;
            r.push(e.duplicate());
            assert(records_view(r@) =~= records_view(before).push(e@));
        }
        i = i + 1;
    }
    assert(s.take(log.records@.len() as int) =~= s);
    r
}

/// Every recorded error, oldest first.
pub fn get_errors(log: &ErrorLog) -> (r: Vec<ErrorRecord>)
    ensures
        records_view(r@) == log@,
{
    let mut r: Vec<ErrorRecord> = Vec::new();
    let mut i: usize = 0;
    while i < log.records.len()
        invariant
            i <= log.records@.len(),
            records_view(r@) == log@.take(i as int),
        decreases log.records@.len() - i,
    {
        let ghost before = r@;
        r.push(log.records[i].duplicate());
        assert(records_view(r@) =~= records_view(before).push(log@[i as int]));
        assert(records_view(r@) =~= log@.take(i + 1));
        i = i + 1;
    }
    assert(log@.take(log.records@.len() as int) =~= log@);
    r
}

/// The errors recorded by `module`, oldest first.
pub fn get_errors_by_module(log: &ErrorLog, module: &str) -> (r: Vec<ErrorRecord>)
    ensures
        records_view(r@) == kept(log@, from_module(module@)),
{
    let r = select(log, Selector::Module(module));
    assert((|e: ErrorRecordView| selects(Selector::Module(module), e)) =~= from_module(module@));
    r
}

/// The test for records made by `module`.
pub open spec fn from_module(module: Seq<char>) -> spec_fn(ErrorRecordView) -> bool {
    |e: ErrorRecordView| e.module == module
}

/// The numbers of records of each of `modules`, added up.
pub open spec fn module_counts_sum(s: Seq<ErrorRecordView>, modules: Seq<Seq<char>>) -> nat
    decreases modules.len(),
{
    if modules.len() == 0 {
        0
    } else {
        module_counts_sum(s, modules.drop_last()) + kept(s, from_module(modules.last())).len()
    }
}

/// How often `m` occurs in `ms`.
pub open spec fn occurrences(ms: Seq<Seq<char>>, m: Seq<char>) -> nat
    decreases ms.len(),
{
    if ms.len() == 0 {
        0
    } else {
        occurrences(ms.drop_last(), m) + if ms.last() == m { 1nat } else { 0nat }
    }
}

proof fn lemma_counts_sum_step(s: Seq<ErrorRecordView>, ms: Seq<Seq<char>>)
    requires
        s.len() > 0,
    ensures
        module_counts_sum(s, ms) == module_counts_sum(s.drop_last(), ms) + occurrences(ms, s.last().module),
    decreases ms.len(),
{
    if ms.len() > 0 {
        lemma_counts_sum_step(s, ms.drop_last());
        let p = from_module(ms.last());
        assert(kept(s, p).len() == kept(s.drop_last(), p).len() + if s.last().module == ms.last() {
            1nat
        } else {
            0nat
        });
    }
}

proof fn lemma_occurrences_absent(ms: Seq<Seq<char>>, m: Seq<char>)
    requires
        !ms.contains(m),
    ensures
        occurrences(ms, m) == 0,
    decreases ms.len(),
{
    if ms.len() > 0 {
        assert(!ms.drop_last().contains(m)) by {
            if ms.drop_last().contains(m) {
                let j = choose|j: int| 0 <= j < ms.drop_last().len() && ms.drop_last()[j] == m;
                assert(ms[j] == m);
            }
        }
        assert(ms[ms.len() - 1] != m);
        lemma_occurrences_absent(ms.drop_last(), m);
    }
}

proof fn lemma_occurs_once(ms: Seq<Seq<char>>, m: Seq<char>)
    requires
        ms.no_duplicates(),
        ms.contains(m),
    ensures
        occurrences(ms, m) == 1,
    decreases ms.len(),
{
    let p = ms.drop_last();
    let last = ms.len() - 1;
    if ms[last] == m {
        assert(!p.contains(m)) by {
            if p.contains(m) {
                let j = choose|j: int| 0 <= j < p.len() && p[j] == m;
                assert(ms[j] == ms[last]);
            }
        }
        lemma_occurrences_absent(p, m);
    } else {
        let j = choose|j: int| 0 <= j < ms.len() && ms[j] == m;
        assert(p[j] == m);
        assert(p.no_duplicates()) by {
            assert forall|a: int, b: int| 0 <= a < p.len() && 0 <= b < p.len() && a != b implies p[a] != p[b] by {
                assert(p[a] == ms[a] && p[b] == ms[b]);
            }
        }
        lemma_occurs_once(p, m);
    }
}

/// Counted module by module, the records add up to all of them: for any
/// list of distinct modules that names the module of every record, the
/// numbers of records `get_errors_by_module` gives for each add up to
/// `get_error_count`.
pub proof fn law_module_counts_add_up(s: Seq<ErrorRecordView>, modules: Seq<Seq<char>>)
    requires
        modules.no_duplicates(),
        forall|i: int| 0 <= i < s.len() ==> modules.contains(#[trigger] s[i].module),
    ensures
        module_counts_sum(s, modules) == s.len(),
    decreases s.len(),
{
    if s.len() == 0 {
        lemma_counts_sum_empty(s, modules);
    } else {
        let p = s.drop_last();
        assert forall|i: int| 0 <= i < p.len() implies modules.contains(#[trigger] p[i].module) by {
            assert(p[i] == s[i]);
        }
        law_module_counts_add_up(p, modules);
        lemma_counts_sum_step(s, modules);
        assert(modules.contains(s[s.len() - 1].module));
        lemma_occurs_once(modules, s.last().module);
    }
}

proof fn lemma_counts_sum_empty(s: Seq<ErrorRecordView>, ms: Seq<Seq<char>>)
    requires
        s.len() == 0,
    ensures
        module_counts_sum(s, ms) == 0,
    decreases ms.len(),
{
    if ms.len() > 0 {
        lemma_counts_sum_empty(s, ms.drop_last());
    }
}

/// The errors of type `error_type`, oldest first.
pub fn get_errors_by_type(log: &ErrorLog, error_type: &str) -> (r: Vec<ErrorRecord>)
    ensures
        records_view(r@) == kept(log@, |e: ErrorRecordView| e.error_type == error_type@),
{
    let r = select(log, Selector::Type(error_type));
    assert((|e: ErrorRecordView| selects(Selector::Type(error_type), e)) =~= (|e: ErrorRecordView|
        e.error_type == error_type@));
    r
}

/// The errors no older than `span` nanoseconds at time `now`, oldest first.
pub fn get_recent_errors_at(log: &ErrorLog, span: u64, now: u64) -> (r: Vec<ErrorRecord>)
    ensures
        records_view(r@) == kept(log@, |e: ErrorRecordView| recent(e, now, span)),
{
    let r = select(log, Selector::Within { now, span });
    assert((|e: ErrorRecordView| selects(Selector::Within { now, span }, e)) =~= (|e: ErrorRecordView|
        recent(e, now, span)));
    r
}

/// The errors no older than `span` nanoseconds now.
pub fn get_recent_errors(log: &ErrorLog, span: u64) -> (r: Vec<ErrorRecord>)
    ensures
        exists|now: u64| records_view(r@) == kept(log@, #[trigger] recent_at(now, span)),
{
    let now = unix_now_nanos();
    let r = get_recent_errors_at(log, span, now);
    assert((|e: ErrorRecordView| recent(e, now, span)) =~= recent_at(now, span));
    r
}

/// The test for records no older than `span` at time `now`.
pub open spec fn recent_at(now: u64, span: u64) -> spec_fn(ErrorRecordView) -> bool {
    |e: ErrorRecordView| recent(e, now, span)
}

/// One more occurrence of `k` in a tally kept in first-occurrence order.
pub open spec fn bump(t: Seq<(Seq<char>, nat)>, k: Seq<char>) -> Seq<(Seq<char>, nat)> {
    let i = index_of_key(t, k);
    if i >= 0 {
        t.update(i, (k, t[i].1 + 1))
    } else {
        t.push((k, 1nat))
    }
}

/// How often each key occurs, keys in order of first occurrence.
pub open spec fn tally(keys: Seq<Seq<char>>) -> Seq<(Seq<char>, nat)>
    decreases keys.len(),
{
    if keys.len() == 0 {
        Seq::empty()
    } else {
        bump(tally(keys.drop_last()), keys.last())
    }
}

/// The view of a tally held in a vector.
pub open spec fn counts_view(v: Seq<(String, usize)>) -> Seq<(Seq<char>, nat)> {
    v.map_values(|e: (String, usize)| (e.0@, e.1 as nat))
}

/// The modules of the records, in order.
pub open spec fn modules_of(s: Seq<ErrorRecordView>) -> Seq<Seq<char>> {
    s.map_values(|e: ErrorRecordView| e.module)
}

/// The error types of the records, in order.
pub open spec fn types_of(s: Seq<ErrorRecordView>) -> Seq<Seq<char>> {
    s.map_values(|e: ErrorRecordView| e.error_type)
}

/// The pattern key of a record: its module and type joined by "::".
pub open spec fn pattern_key(e: ErrorRecordView) -> Seq<char> {
    e.module + "::"@ + e.error_type
}

/// The pattern keys of the records, in order.
pub open spec fn patterns_of(s: Seq<ErrorRecordView>) -> Seq<Seq<char>> {
    s.map_values(|e: ErrorRecordView| pattern_key(e))
}

proof fn lemma_tally_bounded(keys: Seq<Seq<char>>)
    ensures
        tally(keys).len() <= keys.len(),
        forall|i: int| 0 <= i < tally(keys).len() ==> #[trigger] tally(keys)[i].1 <= keys.len(),
    decreases keys.len(),
{
    if keys.len() > 0 {
        lemma_tally_bounded(keys.drop_last());
        lemma_index_of_key(tally(keys.drop_last()), keys.last());
    }
}

/// Counts how often each key occurs, in order of first occurrence.
fn tally_of(keys: &Vec<String>) -> (r: Vec<(String, usize)>)
    ensures
        counts_view(r@) == tally(strings_view(keys@)),
{
    let ghost ks = strings_view(keys@);
    let mut r: Vec<(String, usize)> = Vec::new();
    let mut i: usize = 0;
    while i < keys.len()
        invariant
            i <= keys@.len(),
            ks == strings_view(keys@),
            counts_view(r@) == tally(ks.take(i as int)),
        decreases keys@.len() - i,
    {
        let ghost t = counts_view(r@);
        let ghost k = keys@[i as int]@;
        proof {
            assert(ks.take(i + 1).drop_last() =~= ks.take(i as int));
            assert(ks.take(i + 1).last() == k);
            lemma_tally_bounded(ks.take(i as int));
            lemma_index_of_key(t, k);
            crate::keyed::lemma_index_same_keys(t, entries_view(r@), k);
        }
        match find_key(&r, keys[i].as_str()) {
            Some(j) => {
                let c = r[j].1;
                assert(t[j as int].1 <= i);
                let name = r[j].0.clone();
                r.set(j, (name, c + 1));
                assert(counts_view(r@) =~= bump(t, k));
            },
            None => {
                r.push((keys[i].clone(), 1));
                assert(counts_view(r@) =~= bump(t, k));
            },
        }
        i = i + 1;
    }
    assert(ks.take(keys@.len() as int) =~= ks);
    r
}

/// Report lines "  key: count" followed by `unit`, one per tally entry.
pub open spec fn count_lines(t: Seq<(Seq<char>, nat)>, unit: Seq<char>) -> Seq<char>
    decreases t.len(),
{
    if t.len() == 0 {
        Seq::empty()
    } else {
        count_lines(t.drop_last(), unit) + "  "@ + t.last().0 + ": "@ + decimal(t.last().1) + unit
    }
}

/// The smaller of two numbers.
pub open spec fn at_most(a: nat, b: nat) -> nat {
    if a < b { a } else { b }
}

fn count_lines_text(t: &Vec<(String, usize)>, limit: usize, unit: &str) -> (s: String)
    ensures
        s@ == count_lines(counts_view(t@).take(at_most(limit as nat, t@.len()) as int), unit@),
{
    let n = if limit < t.len() { limit } else { t.len() };
    let ghost tv = counts_view(t@);
    let mut s = String::new();
    let mut i: usize = 0;
    while i < n
        invariant
            i <= n,
            n <= t@.len(),
            tv == counts_view(t@),
            s@ == count_lines(tv.take(i as int), unit@),
        decreases n - i,
    {
        proof {
            assert(tv.take(i + 1).drop_last() =~= tv.take(i as int));
        }
        s.append("  ");
        s.append(t[i].0.as_str());
        s.append(": ");
        s.append(u64_to_decimal(t[i].1 as u64).as_str());
        s.append(unit);
        i = i + 1;
    }
    s
}

/// The context lines of a record: "\n  key: value" per entry.
pub open spec fn pairs_text(c: Seq<(Seq<char>, Seq<char>)>) -> Seq<char>
    decreases c.len(),
{
    if c.len() == 0 {
        Seq::empty()
    } else {
        pairs_text(c.drop_last()) + "\n  "@ + c.last().0 + ": "@ + c.last().1
    }
}

/// A record as text, with `stamp` as its time.
pub open spec fn display(e: ErrorRecordView, stamp: Seq<char>) -> Seq<char> {
    "["@ + stamp + "] "@ + e.module + "::"@ + e.error_type + ": "@ + e.message + match e.context {
        Some(c) => "\nContext:"@ + pairs_text(c),
        None => Seq::empty(),
    }
}

/// A record as text, with the given time text.
pub fn record_display(e: &ErrorRecord, stamp: &str) -> (s: String)
    ensures
        s@ == display(e@, stamp@),
{
    let mut s = String::from_str("[");
    s.append(stamp);
    s.append("] ");
    s.append(e.module.as_str());
    s.append("::");
    s.append(e.error_type.as_str());
    s.append(": ");
    s.append(e.message.as_str());
    let ghost head = s@;
    match &e.context {
        Some(c) => {
            s.append("\nContext:");
            let ghost cv = entries_view(c@);
            let ghost base = s@;
            let mut i: usize = 0;
            while i < c.len()
                invariant
                    i <= c@.len(),
                    cv == entries_view(c@),
                    s@ == base + pairs_text(cv.take(i as int)),
                decreases c@.len() - i,
            {
                proof {
                    assert(cv.take(i + 1).drop_last() =~= cv.take(i as int));
                }
                s.append("\n  ");
                s.append(c[i].0.as_str());
                s.append(": ");
                s.append(c[i].1.as_str());
                proof {
                    assert(s@ =~= base + pairs_text(cv.take(i + 1)));
                }
                i = i + 1;
            }
            proof {
                assert(cv.take(c@.len() as int) =~= cv);
                assert(s@ =~= head + ("\nContext:"@ + pairs_text(cv)));
            }
        },
        None => {
            assert(s@ =~= head + Seq::<char>::empty());
        },
    }
    s
}

impl ErrorRecord {
    /// This record as text, its time shown in the machine's local time.
    pub fn to_display_string(&self) -> (s: String)
        ensures
            exists|stamp: Seq<char>| s@ == #[trigger] display(self@, stamp),
    {
        let stamp = local_time_text(self.timestamp);
        let s = record_display(self, stamp.as_str());
        assert(s@ == display(self@, stamp@));
        s
    }
}

/// Nanoseconds in fifteen minutes.
pub const FIFTEEN_MINUTES: u64 = 900_000_000_000;

/// The "Most Recent Errors" blocks for the `k` newest records, newest
/// first, the i-th shown with time text `stamps[i]`.
pub open spec fn newest_blocks(s: Seq<ErrorRecordView>, stamps: Seq<Seq<char>>, k: nat) -> Seq<char>
    decreases k,
{
    if k == 0 {
        Seq::empty()
    } else {
        newest_blocks(s, stamps, (k - 1) as nat) + "\n--- Error "@ + decimal(k) + " ---\n"@ + display(
            s[s.len() - k],
            stamps[k - 1],
        ) + "\n"@
    }
}

/// The error report for the records `s` at time `now`, with `stamps` as
/// the time texts of the newest records, newest first.
pub open spec fn report_text(s: Seq<ErrorRecordView>, now: u64, stamps: Seq<Seq<char>>) -> Seq<char> {
    if s.len() == 0 {
        "No errors recorded."@
    } else {
        "Error Report ("@ + decimal(s.len()) + " errors)\n"@ + "=======================\n\n"@ + "Errors by Module:\n"@
            + count_lines(tally(modules_of(s)), " errors\n"@) + "\n"@ + "Errors by Type:\n"@ + count_lines(
            tally(types_of(s)),
            " errors\n"@,
        ) + "\n"@ + "Recent errors (last 15 min): "@ + decimal(kept(s, recent_at(now, FIFTEEN_MINUTES)).len())
            + "\n\n"@ + "Most Recent Errors:\n"@ + newest_blocks(s, stamps, at_most(10, s.len()))
    }
}

fn field_texts(log: &ErrorLog, types: bool) -> (r: Vec<String>)
    ensures
        strings_view(r@) == if types { types_of(log@) } else { modules_of(log@) },
{
    let mut r: Vec<String> = Vec::new();
    let mut i: usize = 0;
    while i < log.records.len()
        invariant
            i <= log.records@.len(),
            strings_view(r@) == (if types { types_of(log@) } else { modules_of(log@) }).take(i as int),
        decreases log.records@.len() - i,
    {
        let ghost before = r@;
        if types {
            r.push(log.records[i].error_type.clone());
            assert(strings_view(r@) =~= strings_view(before).push(log@[i as int].error_type));
        } else {
            r.push(log.records[i].module.clone());
            assert(strings_view(r@) =~= strings_view(before).push(log@[i as int].module));
        }
        assert(strings_view(r@) =~= (if types { types_of(log@) } else { modules_of(log@) }).take(i + 1));
        i = i + 1;
    }
    assert((if types { types_of(log@) } else { modules_of(log@) }).take(log.records@.len() as int) =~= (if types {
        types_of(log@)
    } else {
        modules_of(log@)
    }));
    r
}

fn count_recent(log: &ErrorLog, now: u64, span: u64) -> (n: usize)
    ensures
        n == kept(log@, recent_at(now, span)).len(),
{
    let ghost s = log@;
    let ghost p = recent_at(now, span);
    let mut n: usize = 0;
    let mut i: usize = 0;
    while i < log.records.len()
        invariant
            i <= log.records@.len(),
            s == log@,
            p == recent_at(now, span),
            n == kept(s.take(i as int), p).len(),
            n <= i,
        decreases log.records@.len() - i,
    {
        let ts = log.records[i].timestamp;
        proof {
            assert(s.take(i + 1).drop_last() =~= s.take(i as int));
            assert(s.take(i + 1).last() == log.records@[i as int]@);
        }
        if now >= ts && now - ts <= span {
            n = n + 1;
        }
        i = i + 1;
    }
    assert(s.take(log.records@.len() as int) =~= s);
    n
}

/// The error report at time `now`, with `stamps` as the time texts of the
/// newest records, newest first.
#[verifier::rlimit(30)]
pub fn generate_error_report_with(log: &ErrorLog, now: u64, stamps: &Vec<String>) -> (r: String)
    requires
        stamps@.len() >= at_most(10, log@.len()),
    ensures
        r@ == report_text(log@, now, strings_view(stamps@)),
{
    let n = log.records.len();
    if n == 0 {
        return String::from_str("No errors recorded.");
    }
    let ghost s = log@;
    let ghost sv = strings_view(stamps@);
    let mut r = String::from_str("Error Report (");
    r.append(u64_to_decimal(n as u64).as_str());
    r.append(" errors)\n");
    r.append("=======================\n\n");
    r.append("Errors by Module:\n");
    let modules = tally_of(&field_texts(log, false));
    proof {
        lemma_tally_bounded(modules_of(s));
    }
    r.append(count_lines_text(&modules, modules.len(), " errors\n").as_str());
    r.append("\n");
    r.append("Errors by Type:\n");
    let types = tally_of(&field_texts(log, true));
    r.append(count_lines_text(&types, types.len(), " errors\n").as_str());
    r.append("\n");
    r.append("Recent errors (last 15 min): ");
    r.append(u64_to_decimal(count_recent(log, now, FIFTEEN_MINUTES) as u64).as_str());
    r.append("\n\n");
    r.append("Most Recent Errors:\n");
    proof {
        assert(counts_view(modules@).take(modules@.len() as int) =~= counts_view(modules@));
        assert(counts_view(types@).take(types@.len() as int) =~= counts_view(types@));
    }
    let ghost head = r@;
    let k = if n < 10 { n } else { 10 };
    let mut i: usize = 0;
    while i < k
        invariant
            i <= k,
            k == at_most(10, s.len()),
            n == s.len(),
            n == log.records@.len(),
            s == log@,
            sv == strings_view(stamps@),
            stamps@.len() >= k,
            r@ == head + newest_blocks(s, sv, i as nat),
        decreases k - i,
    {
        r.append("\n--- Error ");
        r.append(u64_to_decimal((i + 1) as u64).as_str());
        r.append(" ---\n");
        let e = &log.records[n - 1 - i];
        proof {
            assert(s[s.len() - (i + 1)] == e@);
        }
        r.append(record_display(e, stamps[i].as_str()).as_str());
        r.append("\n");
        proof {
            assert(r@ =~= head + newest_blocks(s, sv, (i + 1) as nat));
        }
        i = i + 1;
    }
    r
}

/// The error report now, the newest records' times in local time.
pub fn generate_error_report(log: &ErrorLog) -> (r: String)
    ensures
        exists|now: u64, stamps: Seq<Seq<char>>| r@ == #[trigger] report_text(log@, now, stamps),
{
    let now = unix_now_nanos();
    let n = log.records.len();
    let k = if n < 10 { n } else { 10 };
    let mut stamps: Vec<String> = Vec::new();
    let mut i: usize = 0;
    while i < k
        invariant
            i <= k,
            k <= n,
            n == log.records@.len(),
            stamps@.len() == i,
        decreases k - i,
    {
        stamps.push(local_time_text(log.records[n - 1 - i].timestamp));
        i = i + 1;
    }
    let r = generate_error_report_with(log, now, &stamps);
    assert(r@ == report_text(log@, now, strings_view(stamps@)));
    r
}

/// Where an entry with count `c` goes in a list sorted by count, largest
/// first: after every entry whose count is at least `c`.
pub open spec fn slot(s: Seq<(Seq<char>, nat)>, c: nat) -> nat
    decreases s.len(),
{
    if s.len() == 0 {
        0
    } else if s.last().1 >= c {
        s.len()
    } else {
        slot(s.drop_last(), c)
    }
}

/// A tally sorted by count, largest first; entries with equal counts keep
/// their order.
pub open spec fn sort_desc(t: Seq<(Seq<char>, nat)>) -> Seq<(Seq<char>, nat)>
    decreases t.len(),
{
    if t.len() == 0 {
        Seq::empty()
    } else {
        let s = sort_desc(t.drop_last());
        s.insert(slot(s, t.last().1) as int, t.last())
    }
}

proof fn lemma_slot_bounded(s: Seq<(Seq<char>, nat)>, c: nat)
    ensures
        slot(s, c) <= s.len(),
    decreases s.len(),
{
    if s.len() > 0 {
        lemma_slot_bounded(s.drop_last(), c);
    }
}

proof fn lemma_sort_len(t: Seq<(Seq<char>, nat)>)
    ensures
        sort_desc(t).len() == t.len(),
    decreases t.len(),
{
    if t.len() > 0 {
        lemma_sort_len(t.drop_last());
        lemma_slot_bounded(sort_desc(t.drop_last()), t.last().1);
    }
}

fn sorted_by_count(t: &Vec<(String, usize)>) -> (r: Vec<(String, usize)>)
    ensures
        counts_view(r@) == sort_desc(counts_view(t@)),
{
    let ghost tv = counts_view(t@);
    let mut r: Vec<(String, usize)> = Vec::new();
    let mut i: usize = 0;
    while i < t.len()
        invariant
            i <= t@.len(),
            tv == counts_view(t@),
            counts_view(r@) == sort_desc(tv.take(i as int)),
        decreases t@.len() - i,
    {
        let ghost rv = counts_view(r@);
        let c = t[i].1;
        proof {
            assert(tv.take(i + 1).drop_last() =~= tv.take(i as int));
            assert(tv.take(i + 1).last() == tv[i as int]);
        }
        let mut j = r.len();
        assert(rv.take(j as int) =~= rv);
        while j > 0 && r[j - 1].1 < c
            invariant
                j <= r@.len(),
                rv == counts_view(r@),
                slot(rv, c as nat) == slot(rv.take(j as int), c as nat),
            decreases j,
        {
            proof {
                assert(rv.take(j as int).drop_last() =~= rv.take(j - 1));
            }
            j = j - 1;
        }
        proof {
            if j > 0 {
                assert(rv.take(j as int).last() == rv[j - 1]);
            }
            assert(slot(rv.take(j as int), c as nat) == j);
        }
        let name = t[i].0.clone();
        r.insert(j, (name, c));
        assert(counts_view(r@) =~= rv.insert(j as int, tv[i as int]));
        i = i + 1;
    }
    assert(tv.take(t@.len() as int) =~= tv);
    r
}

/// Whether two times lie within five seconds of each other.
pub open spec fn within_five_seconds(a: u64, b: u64) -> bool {
    (if a > b { a - b } else { b - a }) <= 5_000_000_000
}

/// How many records of module `b` lie within five seconds of time `t`.
pub open spec fn close_to(s: Seq<ErrorRecordView>, t: u64, b: Seq<char>) -> nat
    decreases s.len(),
{
    if s.len() == 0 {
        0
    } else {
        close_to(s.drop_last(), t, b) + if s.last().module == b && within_five_seconds(s.last().timestamp, t) {
            1nat
        } else {
            0nat
        }
    }
}

/// How many pairs of a record of module `a` (from `outer`) and a record of
/// module `b` (from `s`) lie within five seconds of each other.
pub open spec fn correlated_pairs(outer: Seq<ErrorRecordView>, s: Seq<ErrorRecordView>, a: Seq<char>, b: Seq<char>) -> nat
    decreases outer.len(),
{
    if outer.len() == 0 {
        0
    } else {
        correlated_pairs(outer.drop_last(), s, a, b) + if outer.last().module == a {
            close_to(s, outer.last().timestamp, b)
        } else {
            0nat
        }
    }
}

proof fn lemma_close_bounded(s: Seq<ErrorRecordView>, t: u64, b: Seq<char>)
    ensures
        close_to(s, t, b) <= s.len(),
    decreases s.len(),
{
    if s.len() > 0 {
        lemma_close_bounded(s.drop_last(), t, b);
    }
}

proof fn lemma_pairs_bounded(outer: Seq<ErrorRecordView>, s: Seq<ErrorRecordView>, a: Seq<char>, b: Seq<char>)
    ensures
        correlated_pairs(outer, s, a, b) <= outer.len() * s.len(),
    decreases outer.len(),
{
    if outer.len() > 0 {
        lemma_pairs_bounded(outer.drop_last(), s, a, b);
        lemma_close_bounded(s, outer.last().timestamp, b);
        assert((outer.len() - 1) * s.len() + s.len() == outer.len() * s.len()) by (nonlinear_arith);
    }
}

fn count_close(log: &ErrorLog, t: u64, b: &str) -> (n: usize)
    ensures
        n == close_to(log@, t, b@),
{
    let ghost s = log@;
    let mut n: usize = 0;
    let mut i: usize = 0;
    while i < log.records.len()
        invariant
            i <= log.records@.len(),
            s == log@,
            n == close_to(s.take(i as int), t, b@),
            n <= i,
        decreases log.records@.len() - i,
    {
        let e = &log.records[i];
        proof {
            assert(s.take(i + 1).drop_last() =~= s.take(i as int));
            assert(s.take(i + 1).last() == e@);
        }
        let ts = e.timestamp;
        let gap = if ts > t { ts - t } else { t - ts };
        if str_eq(e.module.as_str(), b) && gap <= 5_000_000_000 {
            n = n + 1;
        }
        i = i + 1;
    }
    assert(s.take(log.records@.len() as int) =~= s);
    n
}

fn count_correlated(log: &ErrorLog, a: &str, b: &str) -> (n: usize)
    requires
        log.wf(),
    ensures
        n == correlated_pairs(log@, log@, a@, b@),
{
    let ghost s = log@;
    let len = log.records.len();
    let mut n: usize = 0;
    let mut i: usize = 0;
    while i < len
        invariant
            i <= len,
            len == log.records@.len(),
            len <= MAX_ERRORS,
            s == log@,
            n == correlated_pairs(s.take(i as int), s, a@, b@),
        decreases len - i,
    {
        let e = &log.records[i];
        proof {
            assert(s.take(i + 1).drop_last() =~= s.take(i as int));
            assert(s.take(i + 1).last() == e@);
            lemma_pairs_bounded(s.take(i + 1), s, a@, b@);
            assert((i + 1) * len <= 1000 * 1000) by (nonlinear_arith)
                requires
                    i + 1 <= 1000,
                    len <= 1000,
            ;
        }
        if str_eq(e.module.as_str(), a) {
            let c = count_close(log, e.timestamp, b);
            n = n + c;
        }
        i = i + 1;
    }
    assert(s.take(len as int) =~= s);
    n
}

/// The correlation line for modules `a` and `b`, empty when no pair of
/// their records lies within five seconds.
pub open spec fn correlation_line(s: Seq<ErrorRecordView>, a: Seq<char>, b: Seq<char>) -> Seq<char> {
    let c = correlated_pairs(s, s, a, b);
    if c > 0 {
        "Possible correlation between "@ + a + " and "@ + b + " modules: "@ + decimal(c) + " related errors\n"@
    } else {
        Seq::empty()
    }
}

/// The correlation lines of module `a` with each module of `rest`.
pub open spec fn lines_with(s: Seq<ErrorRecordView>, a: Seq<char>, rest: Seq<Seq<char>>) -> Seq<char>
    decreases rest.len(),
{
    if rest.len() == 0 {
        Seq::empty()
    } else {
        lines_with(s, a, rest.drop_last()) + correlation_line(s, a, rest.last())
    }
}

/// The correlation lines of the first `i` modules with every later one.
pub open spec fn pair_lines(s: Seq<ErrorRecordView>, mods: Seq<Seq<char>>, i: nat) -> Seq<char>
    decreases i,
{
    if i == 0 {
        Seq::empty()
    } else {
        pair_lines(s, mods, (i - 1) as nat) + lines_with(s, mods[i - 1], mods.subrange(i as int, mods.len() as int))
    }
}

/// Position of the first "::" in `key` at or after `i`, or -1.
pub open spec fn separator_from(key: Seq<char>, i: int) -> int
    decreases key.len() - i,
{
    if i < 0 || i + 1 >= key.len() {
        -1
    } else if key[i] == ':' && key[i + 1] == ':' {
        i
    } else {
        separator_from(key, i + 1)
    }
}

/// A pattern key split at its first "::" into module and error type.
pub open spec fn split_key(key: Seq<char>) -> (Seq<char>, Seq<char>) {
    let p = separator_from(key, 0);
    if p >= 0 {
        (key.subrange(0, p), key.subrange(p + 2, key.len() as int))
    } else {
        (key, Seq::empty())
    }
}

/// The advice for errors of a module and type.
pub open spec fn solution(module: Seq<char>, error_type: Seq<char>) -> Seq<char> {
    if module == "network"@ && error_type == "connection_error"@ {
        "Check network connectivity, firewall settings, and ensure the server is running."@
    } else if module == "network"@ && error_type == "timeout"@ {
        "Increase timeout values or check for network congestion."@
    } else if module == "game"@ && error_type == "save_error"@ {
        "Check file permissions and available disk space."@
    } else if module == "database"@ {
        "Verify database connection settings and schema integrity."@
    } else if error_type == "permission_denied"@ {
        "Check file and resource permissions."@
    } else {
        "Review logs for more details about this error type."@
    }
}

/// The advice lines for the given pattern keys.
pub open spec fn solution_lines(keys: Seq<Seq<char>>) -> Seq<char>
    decreases keys.len(),
{
    if keys.len() == 0 {
        Seq::empty()
    } else {
        solution_lines(keys.drop_last()) + "  For "@ + keys.last() + ": "@ + solution(
            split_key(keys.last()).0,
            split_key(keys.last()).1,
        ) + "\n"@
    }
}

/// The pattern analysis of the records `s`.
pub open spec fn analysis_text(s: Seq<ErrorRecordView>) -> Seq<char> {
    if s.len() == 0 {
        "No errors to analyze."@
    } else {
        let sorted = sort_desc(tally(patterns_of(s)));
        let mods = keys_of(tally(modules_of(s)));
        "Error Pattern Analysis\n"@ + "=====================\n\n"@ + "Common Error Patterns:\n"@ + count_lines(
            sorted.take(at_most(5, sorted.len()) as int),
            " occurrences\n"@,
        ) + "\n"@ + pair_lines(s, mods, mods.len()) + "\nPotential Solutions:\n"@ + solution_lines(
            keys_of(sorted.take(at_most(3, sorted.len()) as int)),
        )
    }
}

fn split_pattern(key: &str) -> (r: (String, String))
    ensures
        (r.0@, r.1@) == split_key(key@),
{
    let n = key.unicode_len();
    let mut i: usize = 0;
    while n > 0 && i < n - 1
        invariant
            i <= n,
            n == key@.len(),
            separator_from(key@, 0) == separator_from(key@, i as int),
        decreases n - i,
    {
        if key.get_char(i) == ':' && key.get_char(i + 1) == ':' {
            let a = key.substring_char(0, i);
            let b = key.substring_char(i + 2, n);
            return (String::from_str(a), String::from_str(b));
        }
        i = i + 1;
    }
    (String::from_str(key), String::new())
}

fn solution_text(module: &str, error_type: &str) -> (s: String)
    ensures
        s@ == solution(module@, error_type@),
{
    let s = if str_eq(module, "network") && str_eq(error_type, "connection_error") {
        "Check network connectivity, firewall settings, and ensure the server is running."
    } else if str_eq(module, "network") && str_eq(error_type, "timeout") {
        "Increase timeout values or check for network congestion."
    } else if str_eq(module, "game") && str_eq(error_type, "save_error") {
        "Check file permissions and available disk space."
    } else if str_eq(module, "database") {
        "Verify database connection settings and schema integrity."
    } else if str_eq(error_type, "permission_denied") {
        "Check file and resource permissions."
    } else {
        "Review logs for more details about this error type."
    };
    String::from_str(s)
}

fn pattern_texts(log: &ErrorLog) -> (r: Vec<String>)
    ensures
        strings_view(r@) == patterns_of(log@),
{
    let mut r: Vec<String> = Vec::new();
    let mut i: usize = 0;
    while i < log.records.len()
        invariant
            i <= log.records@.len(),
            strings_view(r@) == patterns_of(log@).take(i as int),
        decreases log.records@.len() - i,
    {
        let e = &log.records[i];
        let mut k = e.module.clone();
        k.append("::");
        k.append(e.error_type.as_str());
        let ghost before = r@;
        r.push(k);
        assert(strings_view(r@) =~= strings_view(before).push(pattern_key(log@[i as int])));
        assert(strings_view(r@) =~= patterns_of(log@).take(i + 1));
        i = i + 1;
    }
    assert(patterns_of(log@).take(log.records@.len() as int) =~= patterns_of(log@));
    r
}

/// Analyses the recorded errors: the most common patterns, modules whose
/// errors come close together in time, and advice for the top patterns.
pub fn analyze_error_patterns(log: &ErrorLog) -> (r: String)
    requires
        log.wf(),
    ensures
        r@ == analysis_text(log@),
{
    let n = log.records.len();
    if n == 0 {
        return String::from_str("No errors to analyze.");
    }
    let ghost s = log@;
    let mut r = String::from_str("Error Pattern Analysis\n");
    r.append("=====================\n\n");
    r.append("Common Error Patterns:\n");
    let sorted = sorted_by_count(&tally_of(&pattern_texts(log)));
    r.append(count_lines_text(&sorted, 5, " occurrences\n").as_str());
    r.append("\n");
    let modules = tally_of(&field_texts(log, false));
    let ghost mods = keys_of(counts_view(modules@));
    proof {
        assert(keys_of(tally(modules_of(s))) == mods);
    }
    let m = modules.len();
    let ghost head = r@;
    let mut i: usize = 0;
    while i < m
        invariant
            i <= m,
            m == modules@.len(),
            mods == keys_of(counts_view(modules@)),
            s == log@,
            log.wf(),
            r@ == head + pair_lines(s, mods, i as nat),
        decreases m - i,
    {
        let ghost base = r@;
        let ghost a = mods[i as int];
        let mut j: usize = i + 1;
        proof {
            assert(mods.subrange(i + 1, i + 1) =~= Seq::<Seq<char>>::empty());
            assert(modules@[i as int].0@ == a);
        }
        while j < m
            invariant
                i < j <= m,
                m == modules@.len(),
                mods == keys_of(counts_view(modules@)),
                s == log@,
                log.wf(),
                a == mods[i as int],
                a == modules@[i as int].0@,
                r@ == base + lines_with(s, a, mods.subrange(i + 1, j as int)),
            decreases m - j,
        {
            let c = count_correlated(log, modules[i].0.as_str(), modules[j].0.as_str());
            proof {
                assert(mods.subrange(i + 1, j + 1).drop_last() =~= mods.subrange(i + 1, j as int));
                assert(mods.subrange(i + 1, j + 1).last() == modules@[j as int].0@);
            }
            if c > 0 {
                r.append("Possible correlation between ");
                r.append(modules[i].0.as_str());
                r.append(" and ");
                r.append(modules[j].0.as_str());
                r.append(" modules: ");
                r.append(u64_to_decimal(c as u64).as_str());
                r.append(" related errors\n");
            }
            proof {
                assert(r@ =~= base + lines_with(s, a, mods.subrange(i + 1, j + 1)));
            }
            j = j + 1;
        }
        proof {
            assert(r@ =~= head + pair_lines(s, mods, (i + 1) as nat));
        }
        i = i + 1;
    }
    r.append("\nPotential Solutions:\n");
    let ghost sv = counts_view(sorted@);
    let top = if sorted.len() < 3 { sorted.len() } else { 3 };
    let ghost tops = keys_of(sv.take(top as int));
    let ghost head2 = r@;
    let mut q: usize = 0;
    while q < top
        invariant
            q <= top,
            top <= sorted@.len(),
            sv == counts_view(sorted@),
            tops == keys_of(sv.take(top as int)),
            r@ == head2 + solution_lines(tops.take(q as int)),
        decreases top - q,
    {
        let key = sorted[q].0.as_str();
        let (module, error_type) = split_pattern(key);
        proof {
            assert(tops.take(q + 1).drop_last() =~= tops.take(q as int));
            assert(tops.take(q + 1).last() == key@);
        }
        r.append("  For ");
        r.append(key);
        r.append(": ");
        r.append(solution_text(module.as_str(), error_type.as_str()).as_str());
        r.append("\n");
        proof {
            assert(r@ =~= head2 + solution_lines(tops.take(q + 1)));
        }
        q = q + 1;
    }
    proof {
        assert(tops.take(top as int) =~= tops);
        lemma_sort_len(tally(patterns_of(s)));
    }
    r
}

/// The sum of the counts of a tally.
pub open spec fn counted(t: Seq<(Seq<char>, nat)>) -> nat
    decreases t.len(),
{
    if t.len() == 0 {
        0
    } else {
        counted(t.drop_last()) + t.last().1
    }
}

proof fn lemma_counted_bump_at(t: Seq<(Seq<char>, nat)>, i: int, k: Seq<char>)
    requires
        0 <= i < t.len(),
    ensures
        counted(t.update(i, (k, t[i].1 + 1))) == counted(t) + 1,
    decreases t.len(),
{
    let u = t.update(i, (k, t[i].1 + 1));
    if i == t.len() - 1 {
        assert(u.drop_last() =~= t.drop_last());
    } else {
        lemma_counted_bump_at(t.drop_last(), i, k);
        assert(u.drop_last() =~= t.drop_last().update(i, (k, t[i].1 + 1)));
    }
}

/// The counts of a tally add up to the number of keys tallied: every
/// record is counted exactly once in each summary of the report.
pub proof fn law_tally_adds_up(keys: Seq<Seq<char>>)
    ensures
        counted(tally(keys)) == keys.len(),
    decreases keys.len(),
{
    if keys.len() > 0 {
        let t = tally(keys.drop_last());
        law_tally_adds_up(keys.drop_last());
        let k = keys.last();
        lemma_index_of_key(t, k);
        let i = index_of_key(t, k);
        if i >= 0 {
            lemma_counted_bump_at(t, i, k);
        } else {
            assert(t.push((k, 1nat)).drop_last() =~= t);
        }
    }
}

/// Recording keeps the log within its bound, and the record just made is
/// the newest one kept.
pub proof fn law_record_is_newest(s: Seq<ErrorRecordView>, e: ErrorRecordView)
    requires
        s.len() <= MAX_ERRORS,
    ensures
        capped(s.push(e)).len() <= MAX_ERRORS,
        capped(s.push(e)).last() == e,
{
}

} // verus!
