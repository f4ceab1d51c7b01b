//! The stream collector: turns cargo's streamed messages into the ordered
//! buffer of diagnostics that the pager shows.

use vstd::prelude::*;
use crate::text::{lines_of, split_lines};
use vstd::string::StringSliceAdditionalSpecFns;

verus! {

/// One message of cargo's JSON stream, as far as the collector reads it.
#[derive(Clone, Debug)]
pub enum StreamItem {
    /// A message of the compiler, with its diagnostic code and rendered text.
    Compiler { code: Option<String>, rendered: Option<String> },
    /// The marker that the build has finished.
    BuildFinished,
    /// Any other message, or a line that is not a message at all.
    Other,
}

/// Which compiler messages become diagnostics, and when reading stops.
#[derive(Clone, Copy, Debug, PartialEq, Eq, Structural)]
pub enum SelectionPolicy {
    /// Keep messages with a non-empty diagnostic code; stop at the
    /// build-finished marker. Such a message without rendered text, which cargo
    /// does not send, is kept with no lines.
    CodedOnly,
    /// Keep every message with rendered text; read to the end of the stream.
    AnyRendered,
}

/// One diagnostic chosen for display: its rendered text, line by line.
#[derive(Clone, Debug)]
pub struct Diagnostic {
    pub lines: Vec<String>,
}

impl View for Diagnostic {
    type V = Seq<Seq<char>>;

    open spec fn view(&self) -> Seq<Seq<char>> {
        self.lines@.map_values(|l: String| l@)
    }
}

/// The views of a buffer of diagnostics.
pub open spec fn views_of(ds: Seq<Diagnostic>) -> Seq<Seq<Seq<char>>> {
    ds.map_values(|d: Diagnostic| d@)
}

/// Whether `item` becomes a diagnostic under `policy`.
pub open spec fn qualifies(item: StreamItem, policy: SelectionPolicy) -> bool {
    match item {
        StreamItem::Compiler { code, rendered } => match policy {
            SelectionPolicy::CodedOnly => match code {
                Some(c) => c@.len() > 0,
                None => false,
            },
            SelectionPolicy::AnyRendered => rendered is Some,
        },
        _ => false,
    }
}

/// Whether reading stops at `item` under `policy`.
pub open spec fn stops(item: StreamItem, policy: SelectionPolicy) -> bool {
    policy == SelectionPolicy::CodedOnly && item is BuildFinished
}

/// The rendered text of a compiler message (empty for other items).
pub open spec fn rendered_text(item: StreamItem) -> Seq<char> {
    match item {
        StreamItem::Compiler { rendered: Some(r), .. } => r@,
        _ => Seq::empty(),
    }
}

/// The diagnostic that `item` gives under `policy`, if any.
pub open spec fn diagnostic_of(item: StreamItem, policy: SelectionPolicy) -> Option<
    Seq<Seq<char>>,
> {
    if qualifies(item, policy) {
        Some(lines_of(rendered_text(item)))
    } else {
        None
    }
}

/// How many items of `items` are read: all of them, or those before the
/// first one at which reading stops.
pub open spec fn cut(items: Seq<StreamItem>, policy: SelectionPolicy) -> int
    decreases items.len(),
{
    if items.len() == 0 {
        0
    } else if cut(items.drop_last(), policy) < items.len() - 1 {
        cut(items.drop_last(), policy)
    } else if stops(items.last(), policy) {
        items.len() - 1
    } else {
        items.len() as int
    }
}

/// Whether reading has stopped somewhere in `items`.
pub open spec fn finished(items: Seq<StreamItem>, policy: SelectionPolicy) -> bool {
    cut(items, policy) < items.len()
}

/// The diagnostics that `items` give under `policy`, in arrival order.
pub open spec fn selected(items: Seq<StreamItem>, policy: SelectionPolicy) -> Seq<
    Seq<Seq<char>>,
> {
    items.take(cut(items, policy)).filter_map(|i: StreamItem| diagnostic_of(i, policy))
}

/// The deepest nesting of JSON arrays and objects that this library hands to
/// the decoder; deeper lines are skipped.
pub const MAX_JSON_DEPTH: usize = 128;

/// Where a left-to-right scan of JSON text stands: the open arrays and
/// objects, the most that were open at once, and whether it is inside a
/// string literal, just after a backslash there.
pub struct JsonScan {
    pub depth: nat,
    pub deepest: nat,
    pub in_string: bool,
    pub escaped: bool,
}

/// The scan after one more byte `b`.
pub open spec fn scan_step(st: JsonScan, b: u8) -> JsonScan {
    if st.in_string {
        if st.escaped {
            JsonScan { escaped: false, ..st }
        } else if b == 92u8 {
            JsonScan { escaped: true, ..st }
        } else if b == 34u8 {
            JsonScan { in_string: false, ..st }
        } else {
            st
        }
    } else if b == 34u8 {
        JsonScan { in_string: true, ..st }
    } else if b == 91u8 || b == 123u8 {
        JsonScan {
            depth: st.depth + 1,
            deepest: if st.depth + 1 > st.deepest {
                st.depth + 1
            } else {
                st.deepest
            },
            ..st
        }
    } else if (b == 93u8 || b == 125u8) && st.depth > 0 {
        JsonScan { depth: (st.depth - 1) as nat, ..st }
    } else {
        st
    }
}

/// The scan of the bytes `s` from the start.
pub open spec fn scan(s: Seq<u8>) -> JsonScan
    decreases s.len(),
{
    if s.len() == 0 {
        JsonScan { depth: 0, deepest: 0, in_string: false, escaped: false }
    } else {
        scan_step(scan(s.drop_last()), s.last())
    }
}

/// The deepest nesting of `[` and `{` in `s`, outside string literals.
pub open spec fn nesting_depth(s: Seq<u8>) -> nat {
    scan(s).deepest
}

/// Measures the deepest nesting of `[` and `{` in `line`, outside string
/// literals.
pub fn json_depth(line: &str) -> (r: usize)
    ensures
        r == nesting_depth(line.spec_bytes()),
{
    let bytes = line.as_bytes();
    let mut depth: usize = 0;
    let mut deepest: usize = 0;
    let mut in_string = false;
    let mut escaped = false;
    let mut i: usize = 0;
    while i < bytes.len()
        invariant
            i <= bytes@.len(),
            bytes@ == line.spec_bytes(),
            depth <= deepest <= i,
            scan(bytes@.take(i as int)) == (JsonScan {
                depth: depth as nat,
                deepest: deepest as nat,
                in_string,
                escaped,
            }),
        decreases bytes.len() - i,
    {
        let b = bytes[i];
        if in_string {
            if escaped {
                escaped = false;
            } else if b == 92u8 {
                escaped = true;
            } else if b == 34u8 {
                in_string = false;
            }
        } else if b == 34u8 {
            in_string = true;
        } else if b == 91u8 || b == 123u8 {
            depth = depth + 1;
            if depth > deepest {
                deepest = depth;
            }
        } else if (b == 93u8 || b == 125u8) && depth > 0 {
            depth = depth - 1;
        }
        assert(bytes@.take(i + 1).drop_last() =~= bytes@.take(i as int));
        i = i + 1;
    }
    assert(bytes@.take(i as int) =~= bytes@);
    deepest
}

/// The item that this library reads from `line`: the decoded message, or
/// nothing of interest where the line nests deeper than it decodes.
pub open spec fn item_of(line: &str) -> StreamItem {
    if nesting_depth(line.spec_bytes()) <= MAX_JSON_DEPTH {
        message_of(line@)
    } else {
        StreamItem::Other
    }
}

/// What cargo_metadata decodes one line of cargo's output to.
pub uninterp spec fn message_of(line: Seq<char>) -> StreamItem;

/// Relies on cargo_metadata's `Message::parse_stream`: it decodes a line of
/// cargo's JSON output into a message, and a line that is not one into a text
/// line; the result depends on the line alone. It decodes with serde_json's
/// recursion limit switched off, so a line nested too deeply would overflow
/// the stack: the nesting is bounded here.
#[verifier::external_body]
fn decode_line(line: &str) -> (r: StreamItem)
    requires
        nesting_depth(line.spec_bytes()) <= MAX_JSON_DEPTH,
    ensures
        r == message_of(line@),
{
    match cargo_metadata::Message::parse_stream(line.as_bytes()).next() {
        Some(Ok(cargo_metadata::Message::CompilerMessage(m))) => StreamItem::Compiler {
            code: m.message.code.map(|c| c.code),
            rendered: m.message.rendered,
        },
        Some(Ok(cargo_metadata::Message::BuildFinished(_))) => StreamItem::BuildFinished,
        _ => StreamItem::Other,
    }
}

/// Reads `line` as one message of cargo's stream; a line nested deeper than
/// `MAX_JSON_DEPTH` is skipped as a message of no interest.
pub fn parse_line(line: &str) -> (r: StreamItem)
    ensures
        r == item_of(line),
{
    if json_depth(line) <= MAX_JSON_DEPTH {
        decode_line(line)
    } else {
        StreamItem::Other
    }
}

/// Decides whether `item` becomes a diagnostic under `policy`.
pub fn is_selected(item: &StreamItem, policy: SelectionPolicy) -> (r: bool)
    ensures
        r == qualifies(*item, policy),
{
    match item {
        StreamItem::Compiler { code, rendered } => match policy {
            SelectionPolicy::CodedOnly => match code {
                Some(c) => c.as_str().unicode_len() > 0,
                None => false,
            },
            SelectionPolicy::AnyRendered => rendered.is_some(),
        },
        _ => false,
    }
}

/// Decides whether reading stops at `item` under `policy`.
pub fn is_stop(item: &StreamItem, policy: SelectionPolicy) -> (r: bool)
    ensures
        r == stops(*item, policy),
{
    match policy {
        SelectionPolicy::CodedOnly => match item {
            StreamItem::BuildFinished => true,
            _ => false,
        },
        SelectionPolicy::AnyRendered => false,
    }
}

impl Diagnostic {
    /// The diagnostic whose rendered text is `rendered`.
    pub fn new(rendered: &str) -> (r: Diagnostic)
        ensures
            r@ == lines_of(rendered@),
    {
        Diagnostic { lines: split_lines(rendered) }
    }

    /// The number of lines of the rendered text.
    pub fn line_count(&self) -> (r: usize)
        ensures
            r == self@.len(),
    {
        self.lines.len()
    }
}

/// Where reading stops: nowhere before `cut`, and at `cut` if anywhere.
proof fn lemma_cut(items: Seq<StreamItem>, policy: SelectionPolicy)
    ensures
        0 <= cut(items, policy) <= items.len(),
        forall|j: int| 0 <= j < cut(items, policy) ==> !stops(#[trigger] items[j], policy),
        cut(items, policy) < items.len() ==> stops(items[cut(items, policy)], policy),
    decreases items.len(),
{
    if items.len() > 0 {
        let prev = items.drop_last();
        lemma_cut(prev, policy);
        assert forall|j: int| 0 <= j < prev.len() implies items[j] == prev[j] by {}
    }
}

/// What one more item does to the selected diagnostics.
proof fn lemma_selected_push(items: Seq<StreamItem>, x: StreamItem, policy: SelectionPolicy)
    ensures
        finished(items.push(x), policy) == (finished(items, policy) || stops(x, policy)),
        selected(items.push(x), policy) == if finished(items, policy) || !qualifies(x, policy) {
            selected(items, policy)
        } else {
            selected(items, policy).push(lines_of(rendered_text(x)))
        },
{
    let s2 = items.push(x);
    let f = |i: StreamItem| diagnostic_of(i, policy);
    assert(s2.drop_last() =~= items);
    lemma_cut(items, policy);
    let c = cut(items, policy);
    if c < items.len() {
        assert(s2.take(c) =~= items.take(c));
    } else if stops(x, policy) {
        assert(s2.take(items.len() as int) =~= items.take(c));
    } else {
        assert(s2.take(s2.len() as int) =~= s2);
        assert(items.take(c) =~= items);
        if qualifies(x, policy) {
            assert(s2.filter_map(f) =~= items.filter_map(f).push(lines_of(rendered_text(x))));
        } else {
            assert(s2.filter_map(f) =~= items.filter_map(f));
        }
    }
}

fn copy_text(t: &Option<String>) -> (r: Option<String>)
    ensures
        r == *t,
{
    match t {
        Some(s) => Some(s.clone()),
        None => None,
    }
}

fn copy_item(item: &StreamItem) -> (r: StreamItem)
    ensures
        r == *item,
{
    match item {
        StreamItem::Compiler { code, rendered } => StreamItem::Compiler {
            code: copy_text(code),
            rendered: copy_text(rendered),
        },
        StreamItem::BuildFinished => StreamItem::BuildFinished,
        StreamItem::Other => StreamItem::Other,
    }
}

/// Choosing with `diagnostic_of` is filtering by `qualifies`, then taking
/// the lines of each message kept.
proof fn lemma_filter_map_is_filter(s: Seq<StreamItem>, policy: SelectionPolicy)
    ensures
        s.filter_map(|i: StreamItem| diagnostic_of(i, policy)) == s.filter(
            |i: StreamItem| qualifies(i, policy),
        ).map_values(|i: StreamItem| lines_of(rendered_text(i))),
    decreases s.len(),
{
    let f = |i: StreamItem| diagnostic_of(i, policy);
    let q = |i: StreamItem| qualifies(i, policy);
    let g = |i: StreamItem| lines_of(rendered_text(i));
    if s.len() == 0 {
        reveal(Seq::filter);
        assert(s.filter(q).map_values(g) =~= s.filter_map(f));
    } else {
        let prev = s.drop_last();
        lemma_filter_map_is_filter(prev, policy);
        prev.lemma_filter_push(s.last(), q);
        assert(prev.push(s.last()) =~= s);
        if q(s.last()) {
            assert(prev.filter(q).push(s.last()).map_values(g) =~= prev.filter(q).map_values(
                g,
            ).push(g(s.last())));
            assert(s.filter_map(f) =~= prev.filter_map(f).push(g(s.last())));
        }
    }
}

/// Order preservation: when no message before position `k` stops reading, and
/// the message at `k` stops it or `k` is the end, the collected buffer holds
/// exactly the diagnostics of the messages before `k` that meet the selection
/// rule, each once, in arrival order.
pub proof fn lemma_order_preserved(items: Seq<StreamItem>, policy: SelectionPolicy, k: int)
    requires
        0 <= k <= items.len(),
        forall|j: int| 0 <= j < k ==> !stops(#[trigger] items[j], policy),
        k < items.len() ==> stops(items[k], policy),
    ensures
        selected(items, policy) == items.take(k).filter(
            |i: StreamItem| qualifies(i, policy),
        ).map_values(|i: StreamItem| lines_of(rendered_text(i))),
{
    lemma_filter_map_is_filter(items.take(k), policy);
    lemma_cut(items, policy);
    let c = cut(items, policy);
    if c < k {
        assert(stops(items[c], policy));
    }
    if k < c {
        assert(stops(items[k], policy));
    }
}

/// Under the policy that keeps every rendered message, nothing stops reading
/// and the buffer holds the diagnostics of all qualifying messages, in order.
pub proof fn lemma_any_rendered_keeps_all(items: Seq<StreamItem>)
    ensures
        selected(items, SelectionPolicy::AnyRendered) == items.filter(
            |i: StreamItem| qualifies(i, SelectionPolicy::AnyRendered),
        ).map_values(|i: StreamItem| lines_of(rendered_text(i))),
{
    lemma_order_preserved(items, SelectionPolicy::AnyRendered, items.len() as int);
    assert(items.take(items.len() as int) =~= items);
}

proof fn lemma_filter_map_source(s: Seq<StreamItem>, policy: SelectionPolicy, j: int)
    requires
        0 <= j < s.filter_map(|i: StreamItem| diagnostic_of(i, policy)).len(),
    ensures
        exists|i: int|
            0 <= i < s.len() && diagnostic_of(#[trigger] s[i], policy) == Some(
                s.filter_map(|i: StreamItem| diagnostic_of(i, policy))[j],
            ),
    decreases s.len(),
{
    let f = |i: StreamItem| diagnostic_of(i, policy);
    let prev = s.drop_last();
    let n = prev.filter_map(f).len();
    if j < n {
        lemma_filter_map_source(prev, policy, j);
        let i = choose|i: int| 0 <= i < prev.len() && diagnostic_of(#[trigger] prev[i], policy) == Some(prev.filter_map(f)[j]);
        assert(s[i] == prev[i]);
        match f(s.last()) {
            Some(d) => assert(s.filter_map(f)[j] == prev.filter_map(f)[j]),
            None => {},
        }
    } else {
        assert(s[s.len() - 1] == s.last());
    }
}

/// Filtering: every collected diagnostic is the rendered text of a compiler
/// message that meets the selection rule and was read before reading stopped;
/// no build-finished marker and no other message ever becomes one.
pub proof fn lemma_only_qualifying(items: Seq<StreamItem>, policy: SelectionPolicy, j: int)
    requires
        0 <= j < selected(items, policy).len(),
    ensures
        exists|i: int|
            0 <= i < cut(items, policy) && #[trigger] items[i] is Compiler && qualifies(
                items[i],
                policy,
            ) && selected(items, policy)[j] == lines_of(rendered_text(items[i])),
{
    lemma_cut(items, policy);
    let t = items.take(cut(items, policy));
    lemma_filter_map_source(t, policy, j);
    let i = choose|i: int| 0 <= i < t.len() && diagnostic_of(#[trigger] t[i], policy) == Some(selected(items, policy)[j]);
    assert(t[i] == items[i]);
}

/// Builds the buffer of diagnostics from the messages of a stream, one
/// message at a time, in arrival order.
pub struct Collector {
    policy: SelectionPolicy,
    diagnostics: Vec<Diagnostic>,
    done: bool,
    seen: Ghost<Seq<StreamItem>>,
}

impl Collector {
    /// The messages fed so far.
    pub closed spec fn items(&self) -> Seq<StreamItem> {
        self.seen@
    }

    /// The policy the collector was made with.
    pub closed spec fn policy(&self) -> SelectionPolicy {
        self.policy
    }

    /// The diagnostics collected so far.
    pub closed spec fn collected(&self) -> Seq<Seq<Seq<char>>> {
        views_of(self.diagnostics@)
    }

    /// Whether the collector has stopped reading.
    pub closed spec fn stopped(&self) -> bool {
        self.done
    }

    /// The collected diagnostics and the stop flag agree with the messages fed.
    pub open spec fn wf(&self) -> bool {
        &&& self.collected() == selected(self.items(), self.policy())
        &&& self.stopped() == finished(self.items(), self.policy())
    }

    /// A collector that has seen nothing yet.
    pub fn new(policy: SelectionPolicy) -> (r: Collector)
        ensures
            r.wf(),
            r.items() == Seq::<StreamItem>::empty(),
            r.policy() == policy,
    {
        let r = Collector {
            policy,
            diagnostics: Vec::new(),
            done: false,
            seen: Ghost(Seq::empty()),
        };
        assert(views_of(r.diagnostics@) =~= Seq::<Seq<Seq<char>>>::empty());
        r
    }

    /// Takes in the next message of the stream.
    pub fn feed(&mut self, item: StreamItem)
        requires
            old(self).wf(),
        ensures
            final(self).wf(),
            final(self).items() == old(self).items().push(item),
            final(self).policy() == old(self).policy(),
    {
        proof {
            lemma_selected_push(self.seen@, item, self.policy);
        }
        let ghost prev = self.diagnostics@;
        if !self.done {
            if is_stop(&item, self.policy) {
                self.done = true;
            } else if is_selected(&item, self.policy) {
                let d = match &item {
                    StreamItem::Compiler { rendered: Some(r), .. } => Diagnostic::new(r.as_str()),
                    _ => {
                        proof {
                            reveal_strlit("");
                        }
                        Diagnostic::new("")
                    },
                };
                self.diagnostics.push(d);
                assert(views_of(self.diagnostics@) =~= views_of(prev).push(
                    lines_of(rendered_text(item)),
                ));
            }
        }
        self.seen = Ghost(self.seen@.push(item));
    }

    /// Takes in the next line of the stream, decoded as one message.
    pub fn feed_line(&mut self, line: &str)
        requires
            old(self).wf(),
        ensures
            final(self).wf(),
            final(self).items() == old(self).items().push(item_of(line)),
            final(self).policy() == old(self).policy(),
    {
        let item = parse_line(line);
        self.feed(item);
    }

    /// Whether reading should stop here.
    pub fn is_finished(&self) -> (r: bool)
        requires
            self.wf(),
        ensures
            r == finished(self.items(), self.policy()),
    {
        self.done
    }

    /// The number of diagnostics collected so far.
    pub fn len(&self) -> (r: usize)
        requires
            self.wf(),
        ensures
            r == selected(self.items(), self.policy()).len(),
    {
        self.diagnostics.len()
    }

    /// The collected buffer.
    pub fn into_diagnostics(self) -> (r: Vec<Diagnostic>)
        requires
            self.wf(),
        ensures
            views_of(r@) == selected(self.items(), self.policy()),
    {
        self.diagnostics
    }
}

/// The buffer of diagnostics that the messages `items` give under `policy`.
pub fn collect(items: &Vec<StreamItem>, policy: SelectionPolicy) -> (r: Vec<Diagnostic>)
    ensures
        views_of(r@) == selected(items@, policy),
{
    let mut c = Collector::new(policy);
    let mut i: usize = 0;
    while i < items.len()
        invariant
            i <= items.len(),
            c.wf(),
            c.policy() == policy,
            c.items() == items@.take(i as int),
        decreases items.len() - i,
    {
        c.feed(copy_item(&items[i]));
        assert(items@.take(i as int).push(items@[i as int]) =~= items@.take(i + 1));
        i = i + 1;
    }
    assert(items@.take(items.len() as int) =~= items@);
    c.into_diagnostics()
}

} // verus!
