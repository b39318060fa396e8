//! The task store: two ordered sequences of task descriptions (pending and
//! completed), the mutations on them, the derivation of the display list for
//! each tab, and the line-tagged text format the store is persisted in.

use vstd::prelude::*;
use vstd::string::*;

use crate::ui::Tabs;

verus! {

/// The error a store operation reports instead of panicking.
#[derive(PartialEq, Eq, Structural, Clone, Copy, Debug)]
pub enum TodoError {
    /// An index-based operation received an index beyond the addressed
    /// sequence's bounds; the store is left unchanged.
    OutOfRange,
}

/// The mathematical model of a task store: the pending and the completed
/// descriptions, each a sequence of character sequences.
pub struct TodoView {
    pub pending: Seq<Seq<char>>,
    pub completed: Seq<Seq<char>>,
}

/// `s` with the element at `i` removed by swapping the last element into its
/// place: constant-time removal that does not preserve the relative order.
pub open spec fn swap_removed(s: Seq<Seq<char>>, i: int) -> Seq<Seq<char>> {
    s.update(i, s.last()).drop_last()
}

/// The checkbox marker prefixed to a pending task's description.
pub open spec fn unchecked_prefix() -> Seq<char> {
    seq!['[', ' ', ']', ' ']
}

/// The checkbox marker prefixed to a completed task's description.
pub open spec fn checked_prefix() -> Seq<char> {
    seq!['[', 'x', ']', ' ']
}

/// The display rows for a sequence of pending descriptions.
pub open spec fn visible_todo(pending: Seq<Seq<char>>) -> Seq<Seq<char>> {
    pending.map_values(|t: Seq<char>| unchecked_prefix() + t)
}

/// The display rows for a sequence of completed descriptions.
pub open spec fn visible_done(completed: Seq<Seq<char>>) -> Seq<Seq<char>> {
    completed.map_values(|t: Seq<char>| checked_prefix() + t)
}

/// The visible list a tab projects out of the store: `All` concatenates the
/// pending rows and then the completed rows.
pub open spec fn visible_spec(v: TodoView, tab: Tabs) -> Seq<Seq<char>> {
    match tab {
        Tabs::All => visible_todo(v.pending) + visible_done(v.completed),
        Tabs::Todo => visible_todo(v.pending),
        Tabs::Done => visible_done(v.completed),
    }
}

/// The tag that opens a pending line in the persisted file.
pub open spec fn todo_tag() -> Seq<char> {
    seq!['T', 'O', 'D', 'O', ':', ' ']
}

/// The tag that opens a completed line in the persisted file.
pub open spec fn done_tag() -> Seq<char> {
    seq!['D', 'O', 'N', 'E', ':', ' ']
}

/// Whether `c` is a whitespace character (the set `char::is_whitespace`
/// accepts: ASCII whitespace and the Unicode space separators).
pub open spec fn is_space(c: char) -> bool {
    let u = c as u32;
    ||| u == 0x20
    ||| u == 0x09
    ||| u == 0x0A
    ||| u == 0x0B
    ||| u == 0x0C
    ||| u == 0x0D
    ||| u == 0x85
    ||| u == 0xA0
    ||| u == 0x1680
    ||| (0x2000 <= u && u <= 0x200A)
    ||| u == 0x2028
    ||| u == 0x2029
    ||| u == 0x202F
    ||| u == 0x205F
    ||| u == 0x3000
}

/// The index of the first `'\n'` at or after `i`, or `s.len()` if none.
pub open spec fn find_newline(s: Seq<char>, i: int) -> int
    decreases s.len() - i,
{
    if i < 0 || i >= s.len() {
        s.len() as int
    } else if s[i] == '\n' {
        i
    } else {
        find_newline(s, i + 1)
    }
}

/// `line` with one trailing carriage return removed, if it ends in one.
pub open spec fn strip_cr(line: Seq<char>) -> Seq<char> {
    if line.len() > 0 && line.last() == '\r' {
        line.drop_last()
    } else {
        line
    }
}

/// The first index at or after `i` holding a non-space, or `s.len()` if none.
pub open spec fn skip_front(s: Seq<char>, i: int) -> int
    decreases s.len() - i,
{
    if i < 0 || i >= s.len() {
        s.len() as int
    } else if is_space(s[i]) {
        skip_front(s, i + 1)
    } else {
        i
    }
}

/// The end (exclusive) of the last non-space strictly before `j`, or 0 if
/// `s` holds only spaces before `j`.
pub open spec fn skip_back(s: Seq<char>, j: int) -> int
    decreases j,
{
    if j <= 0 || j > s.len() {
        0
    } else if is_space(s[j - 1]) {
        skip_back(s, j - 1)
    } else {
        j
    }
}

/// `s` with leading and trailing whitespace removed.
pub open spec fn trim_spec(s: Seq<char>) -> Seq<char> {
    let a = skip_front(s, 0);
    let b = skip_back(s, s.len() as int);
    if a < b {
        s.subrange(a, b)
    } else {
        Seq::empty()
    }
}

/// Whether `line` opens with the pending tag, matched case-insensitively.
pub open spec fn matches_todo_tag(line: Seq<char>) -> bool {
    &&& line.len() >= 6
    &&& (line[0] == 't' || line[0] == 'T')
    &&& (line[1] == 'o' || line[1] == 'O')
    &&& (line[2] == 'd' || line[2] == 'D')
    &&& (line[3] == 'o' || line[3] == 'O')
    &&& line[4] == ':'
    &&& line[5] == ' '
}

/// Whether `line` opens with the completed tag, matched case-insensitively.
pub open spec fn matches_done_tag(line: Seq<char>) -> bool {
    &&& line.len() >= 6
    &&& (line[0] == 'd' || line[0] == 'D')
    &&& (line[1] == 'o' || line[1] == 'O')
    &&& (line[2] == 'n' || line[2] == 'N')
    &&& (line[3] == 'e' || line[3] == 'E')
    &&& line[4] == ':'
    &&& line[5] == ' '
}

/// The description a tagged line carries: what follows the tag, trimmed.
pub open spec fn line_payload(line: Seq<char>) -> Seq<char> {
    trim_spec(line.subrange(6, line.len() as int))
}

/// The pending and completed descriptions read out of file content `s`:
/// the content splits at each `'\n'`, each line loses one trailing `'\r'`,
/// lines opening with the pending or the completed tag (case-insensitively)
/// contribute their trimmed remainder, and every other line is ignored.
pub open spec fn parse_spec(s: Seq<char>) -> (Seq<Seq<char>>, Seq<Seq<char>>)
    decreases s.len(),
{
    if s.len() == 0 {
        (Seq::<Seq<char>>::empty(), Seq::<Seq<char>>::empty())
    } else {
        let j = find_newline(s, 0);
        let line = strip_cr(s.subrange(0, j));
        let next = if 0 <= j < s.len() {
            j + 1
        } else {
            s.len() as int
        };
        let rest = parse_spec(s.subrange(next, s.len() as int));
        if matches_todo_tag(line) {
            (seq![line_payload(line)] + rest.0, rest.1)
        } else if matches_done_tag(line) {
            (rest.0, seq![line_payload(line)] + rest.1)
        } else {
            rest
        }
    }
}

/// One tagged line per description: the tag, the description, a newline.
pub open spec fn save_lines(items: Seq<Seq<char>>, tag: Seq<char>) -> Seq<char>
    decreases items.len(),
{
    if items.len() == 0 {
        Seq::<char>::empty()
    } else {
        tag + items[0] + seq!['\n'] + save_lines(items.drop_first(), tag)
    }
}

/// The persisted form of a store: every pending description as a `TODO: `
/// line, then every completed description as a `DONE: ` line, each line
/// closed by a newline.
pub open spec fn save_spec(v: TodoView) -> Seq<char> {
    save_lines(v.pending, todo_tag()) + save_lines(v.completed, done_tag())
}

proof fn lemma_find_newline_at(s: Seq<char>, i: int, j: int)
    requires
        0 <= i <= j <= s.len(),
        forall|k: int| i <= k < j ==> s[k] != '\n',
        j == s.len() || s[j] == '\n',
    ensures
        find_newline(s, i) == j,
    decreases j - i,
{
    if i < j {
        lemma_find_newline_at(s, i + 1, j);
    }
}

proof fn lemma_skip_front_at(s: Seq<char>, i: int, a: int)
    requires
        0 <= i <= a <= s.len(),
        forall|k: int| i <= k < a ==> is_space(s[k]),
        a == s.len() || !is_space(s[a]),
    ensures
        skip_front(s, i) == a,
    decreases a - i,
{
    if i < a {
        lemma_skip_front_at(s, i + 1, a);
    }
}

proof fn lemma_skip_back_bounds(s: Seq<char>, j: int)
    requires
        0 <= j <= s.len(),
    ensures
        0 <= skip_back(s, j) <= j,
    decreases j,
{
    if j > 0 && is_space(s[j - 1]) {
        lemma_skip_back_bounds(s, j - 1);
    }
}

proof fn lemma_skip_back_at(s: Seq<char>, j: int, b: int)
    requires
        0 <= b <= j <= s.len(),
        forall|k: int| b <= k < j ==> is_space(s[k]),
        b == 0 || !is_space(s[b - 1]),
    ensures
        skip_back(s, j) == b,
    decreases j - b,
{
    if b < j {
        lemma_skip_back_at(s, j - 1, b);
    }
}

proof fn lemma_save_lines_push(items: Seq<Seq<char>>, tag: Seq<char>, x: Seq<char>)
    ensures
        save_lines(items.push(x), tag) == save_lines(items, tag) + (tag + x + seq!['\n']),
    decreases items.len(),
{
    if items.len() == 0 {
        assert(items =~= Seq::<Seq<char>>::empty());
        assert(items.push(x).drop_first() =~= Seq::<Seq<char>>::empty());
        assert(items.push(x)[0] == x);
        assert(save_lines(items.push(x), tag) == tag + x + seq!['\n'] + save_lines(
            items.push(x).drop_first(),
            tag,
        ));
        assert(save_lines(Seq::<Seq<char>>::empty(), tag) == Seq::<char>::empty());
        assert(tag + x + seq!['\n'] + Seq::<char>::empty() =~= Seq::<char>::empty() + (tag + x
            + seq!['\n']));
    } else {
        lemma_save_lines_push(items.drop_first(), tag, x);
        assert(items.push(x).drop_first() =~= items.drop_first().push(x));
        assert(items.push(x)[0] == items[0]);
        assert(save_lines(items.push(x), tag) == tag + items[0] + seq!['\n'] + save_lines(
            items.drop_first().push(x),
            tag,
        ));
        assert(tag + items[0] + seq!['\n'] + (save_lines(items.drop_first(), tag) + (tag + x
            + seq!['\n'])) =~= (tag + items[0] + seq!['\n'] + save_lines(items.drop_first(), tag))
            + (tag + x + seq!['\n']));
    }
}

/// A description that survives the persisted format unchanged: it holds no
/// newline, and trimming leaves it as it is.
pub open spec fn item_wf(item: Seq<char>) -> bool {
    &&& forall|k: int| 0 <= k < item.len() ==> item[k] != '\n'
    &&& trim_spec(item) == item
}

/// A store whose descriptions all survive the persisted format unchanged.
pub open spec fn store_wf(v: TodoView) -> bool {
    &&& forall|k: int| 0 <= k < v.pending.len() ==> item_wf(#[trigger] v.pending[k])
    &&& forall|k: int| 0 <= k < v.completed.len() ==> item_wf(#[trigger] v.completed[k])
}

proof fn lemma_skip_front_bounds(s: Seq<char>, i: int)
    requires
        0 <= i <= s.len(),
    ensures
        i <= skip_front(s, i) <= s.len(),
    decreases s.len() - i,
{
    if i < s.len() && is_space(s[i]) {
        lemma_skip_front_bounds(s, i + 1);
    }
}

proof fn lemma_trim_stable_ends(item: Seq<char>)
    requires
        trim_spec(item) == item,
        item.len() > 0,
    ensures
        !is_space(item[0]),
        !is_space(item[item.len() - 1]),
{
    let a = skip_front(item, 0);
    let b = skip_back(item, item.len() as int);
    lemma_skip_front_bounds(item, 0);
    lemma_skip_back_bounds(item, item.len() as int);
    if a < b {
        assert(item.subrange(a, b) == item);
        assert(b - a == item.len());
        assert(a == 0 && b == item.len());
        if is_space(item[0]) {
            lemma_skip_front_bounds(item, 1);
            assert(skip_front(item, 0) == skip_front(item, 1));
            assert(false);
        }
        if is_space(item[item.len() - 1]) {
            lemma_skip_back_bounds(item, item.len() - 1);
            assert(skip_back(item, item.len() as int) == skip_back(item, item.len() - 1));
            assert(false);
        }
    } else {
        assert(trim_spec(item) == Seq::<char>::empty());
        assert(false);
    }
}

proof fn lemma_parse_save_lines_done(completed: Seq<Seq<char>>)
    requires
        forall|k: int| 0 <= k < completed.len() ==> item_wf(#[trigger] completed[k]),
    ensures
        parse_spec(save_lines(completed, done_tag())).0 == Seq::<Seq<char>>::empty(),
        parse_spec(save_lines(completed, done_tag())).1 == completed,
    decreases completed.len(),
{
    let tag = done_tag();
    if completed.len() == 0 {
        assert(save_lines(completed, tag) == Seq::<char>::empty());
        assert(parse_spec(Seq::<char>::empty()).0 =~= Seq::<Seq<char>>::empty());
        assert(parse_spec(Seq::<char>::empty()).1 =~= completed);
    } else {
        let item = completed[0];
        assert(item_wf(item));
        let rest = save_lines(completed.drop_first(), tag);
        let s = save_lines(completed, tag);
        assert(s == tag + item + seq!['\n'] + rest);
        let j = 6 + item.len() as int;
        assert(s.len() == j + 1 + rest.len());
        assert forall|k: int| 0 <= k < j implies s[k] != '\n' by {
            if k < 6 {
                assert(s[k] == tag[k]);
            } else {
                assert(s[k] == item[k - 6]);
            }
        }
        assert(s[j] == '\n');
        lemma_find_newline_at(s, 0, j);
        assert(s.subrange(0, j) =~= tag + item);
        let line = strip_cr(s.subrange(0, j));
        if item.len() > 0 {
            lemma_trim_stable_ends(item);
            assert((tag + item).last() == item[item.len() - 1]);
            assert(is_space('\r'));
            assert((tag + item).last() != '\r');
        } else {
            assert((tag + item).last() == ' ');
        }
        assert(line == tag + item);
        assert(matches_done_tag(line));
        assert(!matches_todo_tag(line));
        assert(line.subrange(6, line.len() as int) =~= item);
        assert(line_payload(line) == trim_spec(item));
        assert(line_payload(line) == item);
        assert(0 <= j < s.len());
        assert(s.subrange(j + 1, s.len() as int) =~= rest);
        assert forall|k: int| 0 <= k < completed.drop_first().len() implies item_wf(
            #[trigger] completed.drop_first()[k],
        ) by {
            assert(completed.drop_first()[k] == completed[k + 1]);
        }
        lemma_parse_save_lines_done(completed.drop_first());
        assert(parse_spec(s).1 =~= seq![item] + completed.drop_first());
        assert(seq![item] + completed.drop_first() =~= completed);
        assert(parse_spec(s).0 =~= Seq::<Seq<char>>::empty());
    }
}

proof fn lemma_parse_save_lines(pending: Seq<Seq<char>>, completed: Seq<Seq<char>>)
    requires
        forall|k: int| 0 <= k < pending.len() ==> item_wf(#[trigger] pending[k]),
        forall|k: int| 0 <= k < completed.len() ==> item_wf(#[trigger] completed[k]),
    ensures
        parse_spec(save_lines(pending, todo_tag()) + save_lines(completed, done_tag())).0
            == pending,
        parse_spec(save_lines(pending, todo_tag()) + save_lines(completed, done_tag())).1
            == completed,
    decreases pending.len(),
{
    let t = save_lines(pending, todo_tag());
    let d = save_lines(completed, done_tag());
    let s = t + d;
    if pending.len() == 0 {
        assert(t == Seq::<char>::empty());
        assert(s =~= d);
        lemma_parse_save_lines_done(completed);
        assert(parse_spec(s).0 =~= pending);
    } else {
        let item = pending[0];
        assert(item_wf(item));
        let restp = save_lines(pending.drop_first(), todo_tag());
        assert(t == todo_tag() + item + seq!['\n'] + restp);
        let j = 6 + item.len() as int;
        assert(t.len() == j + 1 + restp.len());
        assert forall|k: int| 0 <= k < j implies s[k] != '\n' by {
            assert(s[k] == t[k]);
            if k < 6 {
                assert(t[k] == todo_tag()[k]);
            } else {
                assert(t[k] == item[k - 6]);
            }
        }
        assert(s[j] == t[j] && t[j] == '\n');
        lemma_find_newline_at(s, 0, j);
        assert(s.subrange(0, j) =~= todo_tag() + item);
        let line = strip_cr(s.subrange(0, j));
        if item.len() > 0 {
            lemma_trim_stable_ends(item);
            assert((todo_tag() + item).last() == item[item.len() - 1]);
            assert(is_space('\r'));
            assert((todo_tag() + item).last() != '\r');
        } else {
            assert((todo_tag() + item).last() == ' ');
        }
        assert(line == todo_tag() + item);
        assert(matches_todo_tag(line));
        assert(!matches_done_tag(line));
        assert(line.subrange(6, line.len() as int) =~= item);
        assert(line_payload(line) == trim_spec(item));
        assert(line_payload(line) == item);
        assert(0 <= j < s.len());
        assert(s.subrange(j + 1, s.len() as int) =~= restp + d);
        assert forall|k: int| 0 <= k < pending.drop_first().len() implies item_wf(
            #[trigger] pending.drop_first()[k],
        ) by {
            assert(pending.drop_first()[k] == pending[k + 1]);
        }
        lemma_parse_save_lines(pending.drop_first(), completed);
        assert(parse_spec(s).0 =~= seq![item] + pending.drop_first());
        assert(seq![item] + pending.drop_first() =~= pending);
        assert(parse_spec(s).1 == completed);
    }
}

/// Round trip: a store whose descriptions hold no newline and are
/// trim-stable is reproduced exactly — pending and completed sequences both,
/// element for element — by reading back its persisted form.
pub proof fn lemma_save_load_round_trip(v: TodoView)
    requires
        store_wf(v),
    ensures
        parse_spec(save_spec(v)).0 == v.pending,
        parse_spec(save_spec(v)).1 == v.completed,
{
    lemma_parse_save_lines(v.pending, v.completed);
}

/// Whether `c` is a whitespace character.
fn is_space_ch(c: char) -> (b: bool)
    ensures
        b == is_space(c),
{
    let u = c as u32;
    u == 0x20 || u == 0x09 || u == 0x0A || u == 0x0B || u == 0x0C || u == 0x0D || u == 0x85
        || u == 0xA0 || u == 0x1680 || (0x2000 <= u && u <= 0x200A) || u == 0x2028 || u == 0x2029
        || u == 0x202F || u == 0x205F || u == 0x3000
}

/// The index of the first newline of `content` at or after `start`, or the
/// content's length if there is none.
fn scan_line_end(content: &str, start: usize, n: usize) -> (j: usize)
    requires
        n == content@.len(),
        start <= n,
    ensures
        start <= j <= n,
        j == find_newline(content@, start as int),
        forall|k: int| start <= k < j ==> content@[k] != '\n',
        j < n ==> content@[j as int] == '\n',
{
    let mut j = start;
    while j < n
        invariant
            n == content@.len(),
            start <= j <= n,
            forall|k: int| start <= k < j ==> content@[k] != '\n',
        decreases n - j,
    {
        if content.get_char(j) == '\n' {
            proof {
                lemma_find_newline_at(content@, start as int, j as int);
            }
            return j;
        }
        j = j + 1;
    }
    proof {
        lemma_find_newline_at(content@, start as int, j as int);
    }
    j
}

/// The first index in `[start, end)` holding a non-space, or `end`.
fn scan_non_space_front(content: &str, start: usize, end: usize) -> (a: usize)
    requires
        end <= content@.len(),
        start <= end,
    ensures
        start <= a <= end,
        forall|k: int| start <= k < a ==> is_space(content@[k]),
        a < end ==> !is_space(content@[a as int]),
{
    let mut a = start;
    while a < end
        invariant
            end <= content@.len(),
            start <= a <= end,
            forall|k: int| start <= k < a ==> is_space(content@[k]),
        decreases end - a,
    {
        if !is_space_ch(content.get_char(a)) {
            return a;
        }
        a = a + 1;
    }
    a
}

/// The end (exclusive) of the last non-space in `[start, end)`, or `start`.
fn scan_non_space_back(content: &str, start: usize, end: usize) -> (b: usize)
    requires
        end <= content@.len(),
        start <= end,
    ensures
        start <= b <= end,
        forall|k: int| b <= k < end ==> is_space(content@[k]),
        b > start ==> !is_space(content@[b as int - 1]),
{
    let mut b = end;
    while b > start
        invariant
            end <= content@.len(),
            start <= b <= end,
            forall|k: int| b <= k < end ==> is_space(content@[k]),
        decreases b,
    {
        if !is_space_ch(content.get_char(b - 1)) {
            return b;
        }
        b = b - 1;
    }
    b
}

/// Whether the line `content[i..e)` opens with the pending tag and whether it
/// opens with the completed tag, matched case-insensitively.
fn line_tag(content: &str, i: usize, e: usize) -> (r: (bool, bool))
    requires
        i <= e <= content@.len(),
    ensures
        r.0 == matches_todo_tag(content@.subrange(i as int, e as int)),
        r.1 == matches_done_tag(content@.subrange(i as int, e as int)),
{
    let ghost line = content@.subrange(i as int, e as int);
    if e - i < 6 {
        return (false, false);
    }
    let c0 = content.get_char(i);
    let c1 = content.get_char(i + 1);
    let c2 = content.get_char(i + 2);
    let c3 = content.get_char(i + 3);
    let c4 = content.get_char(i + 4);
    let c5 = content.get_char(i + 5);
    proof {
        assert(line[0] == c0 && line[1] == c1 && line[2] == c2 && line[3] == c3 && line[4] == c4
            && line[5] == c5);
    }
    let tail = c4 == ':' && c5 == ' ';
    let t = (c0 == 't' || c0 == 'T') && (c1 == 'o' || c1 == 'O') && (c2 == 'd' || c2 == 'D') && (c3
        == 'o' || c3 == 'O') && tail;
    let d = (c0 == 'd' || c0 == 'D') && (c1 == 'o' || c1 == 'O') && (c2 == 'n' || c2 == 'N') && (c3
        == 'e' || c3 == 'E') && tail;
    (t, d)
}

/// The task store.
pub struct Todo {
    todo: Vec<String>,
    done: Vec<String>,
}

impl View for Todo {
    type V = TodoView;

    closed spec fn view(&self) -> TodoView {
        TodoView { pending: self.todo.deep_view(), completed: self.done.deep_view() }
    }
}

impl Todo {
    /// An empty store.
    pub fn new() -> (t: Todo)
        ensures
            t@.pending == Seq::<Seq<char>>::empty(),
            t@.completed == Seq::<Seq<char>>::empty(),
    {
        let t = Todo { todo: Vec::new(), done: Vec::new() };
        proof {
            assert(t@.pending =~= Seq::<Seq<char>>::empty());
            assert(t@.completed =~= Seq::<Seq<char>>::empty());
        }
        t
    }

    /// Appends a description to the pending sequence.  The store accepts any
    /// description, the empty one included; rejecting empty input is the
    /// caller's policy (the line editor commits only non-empty buffers).
    pub fn add_to_todo(&mut self, message: String)
        ensures
            final(self)@.pending == old(self)@.pending.push(message@),
            final(self)@.completed == old(self)@.completed,
    {
        let ghost m = message@;
        self.todo.push(message);
        proof {
            assert(self@.pending =~= old(self)@.pending.push(m));
        }
    }

    /// Appends a description to the completed sequence.
    pub fn add_to_done(&mut self, message: String)
        ensures
            final(self)@.completed == old(self)@.completed.push(message@),
            final(self)@.pending == old(self)@.pending,
    {
        let ghost m = message@;
        self.done.push(message);
        proof {
            assert(self@.completed =~= old(self)@.completed.push(m));
        }
    }

    /// Removes and returns the pending description at `index` by swap-removal,
    /// or reports `OutOfRange` and leaves the store unchanged.
    pub fn remove_from_todo(&mut self, index: usize) -> (r: Result<String, TodoError>)
        ensures
            index < old(self)@.pending.len() ==> {
                &&& r matches Ok(m) && m@ == old(self)@.pending[index as int]
                &&& final(self)@.pending == swap_removed(old(self)@.pending, index as int)
                &&& final(self)@.completed == old(self)@.completed
            },
            index >= old(self)@.pending.len() ==> {
                &&& r == Err::<String, TodoError>(TodoError::OutOfRange)
                &&& *final(self) == *old(self)
            },
    {
        if index < self.todo.len() {
            let m = self.todo.swap_remove(index);
            proof {
                assert(self@.pending =~= swap_removed(old(self)@.pending, index as int));
            }
            Ok(m)
        } else {
            Err(TodoError::OutOfRange)
        }
    }

    /// Removes and returns the completed description at `index` by
    /// swap-removal, or reports `OutOfRange` and leaves the store unchanged.
    pub fn remove_from_done(&mut self, index: usize) -> (r: Result<String, TodoError>)
        ensures
            index < old(self)@.completed.len() ==> {
                &&& r matches Ok(m) && m@ == old(self)@.completed[index as int]
                &&& final(self)@.completed == swap_removed(old(self)@.completed, index as int)
                &&& final(self)@.pending == old(self)@.pending
            },
            index >= old(self)@.completed.len() ==> {
                &&& r == Err::<String, TodoError>(TodoError::OutOfRange)
                &&& *final(self) == *old(self)
            },
    {
        if index < self.done.len() {
            let m = self.done.swap_remove(index);
            proof {
                assert(self@.completed =~= swap_removed(old(self)@.completed, index as int));
            }
            Ok(m)
        } else {
            Err(TodoError::OutOfRange)
        }
    }

    /// Moves the pending description at `index` to the end of the completed
    /// sequence.  The pending slot is filled by swap-removal: the description
    /// formerly at the last pending position now occupies position `index`.
    /// On an out-of-range index the store is unchanged.
    pub fn mark_as_done(&mut self, index: usize) -> (r: Result<(), TodoError>)
        ensures
            index < old(self)@.pending.len() ==> {
                &&& r == Ok::<(), TodoError>(())
                &&& final(self)@.pending == swap_removed(old(self)@.pending, index as int)
                &&& final(self)@.completed == old(self)@.completed.push(
                    old(self)@.pending[index as int],
                )
            },
            index >= old(self)@.pending.len() ==> {
                &&& r == Err::<(), TodoError>(TodoError::OutOfRange)
                &&& *final(self) == *old(self)
            },
    {
        match self.remove_from_todo(index) {
            Ok(element) => {
                self.add_to_done(element);
                Ok(())
            },
            Err(e) => Err(e),
        }
    }

    /// Moves the completed description at `index` to the end of the pending
    /// sequence; the symmetric inverse of `mark_as_done`.
    pub fn mark_as_todo(&mut self, index: usize) -> (r: Result<(), TodoError>)
        ensures
            index < old(self)@.completed.len() ==> {
                &&& r == Ok::<(), TodoError>(())
                &&& final(self)@.completed == swap_removed(old(self)@.completed, index as int)
                &&& final(self)@.pending == old(self)@.pending.push(
                    old(self)@.completed[index as int],
                )
            },
            index >= old(self)@.completed.len() ==> {
                &&& r == Err::<(), TodoError>(TodoError::OutOfRange)
                &&& *final(self) == *old(self)
            },
    {
        match self.remove_from_done(index) {
            Ok(element) => {
                self.add_to_todo(element);
                Ok(())
            },
            Err(e) => Err(e),
        }
    }

    /// Maps a row of the `All` view to its owning sequence and local index:
    /// rows below `len(pending)` address the pending sequence, the rest
    /// address the completed sequence.  Reports `OutOfRange` for a row beyond
    /// both sequences.
    pub fn all_to_single(&self, position: usize) -> (r: Result<(usize, Tabs), TodoError>)
        ensures
            position < self@.pending.len() ==> r == Ok::<(usize, Tabs), TodoError>(
                (position, Tabs::Todo),
            ),
            self@.pending.len() <= position < self@.pending.len() + self@.completed.len() ==> {
                &&& r matches Ok(p)
                &&& p.0 == position - self@.pending.len()
                &&& p.1 == Tabs::Done
            },
            position >= self@.pending.len() + self@.completed.len() ==> r == Err::<
                (usize, Tabs),
                TodoError,
            >(TodoError::OutOfRange),
    {
        if position < self.todo.len() {
            Ok((position, Tabs::Todo))
        } else if position - self.todo.len() < self.done.len() {
            Ok((position - self.todo.len(), Tabs::Done))
        } else {
            Err(TodoError::OutOfRange)
        }
    }

    /// The number of pending descriptions.
    pub fn todo_len(&self) -> (n: usize)
        ensures
            n == self@.pending.len(),
    {
        self.todo.len()
    }

    /// The number of completed descriptions.
    pub fn done_len(&self) -> (n: usize)
        ensures
            n == self@.completed.len(),
    {
        self.done.len()
    }

    /// The display rows of the pending descriptions, each prefixed with the
    /// empty checkbox marker.
    pub fn collect_todo_md(&self) -> (r: Vec<String>)
        ensures
            r.deep_view() == visible_todo(self@.pending),
    {
        let mut out: Vec<String> = Vec::new();
        let mut i: usize = 0;
        while i < self.todo.len()
            invariant
                i <= self.todo.len(),
                out.deep_view().len() == i,
                forall|k: int|
                    0 <= k < i ==> out.deep_view()[k] == unchecked_prefix()
                        + self@.pending[k],
            decreases self.todo.len() - i,
        {
            let mut row = String::new();
            row.append("[ ] ");
            row.append(self.todo[i].as_str());
            proof {
                reveal_strlit("[ ] ");
                assert(("[ ] ")@ =~= unchecked_prefix());
                assert(row@ =~= unchecked_prefix() + self@.pending[i as int]);
            }
            let ghost pre = out.deep_view();
            out.push(row);
            proof {
                assert(out.deep_view() =~= pre.push(unchecked_prefix() + self@.pending[i as int]));
            }
            i = i + 1;
        }
        proof {
            assert(out.deep_view() =~= visible_todo(self@.pending));
        }
        out
    }

    /// The display rows of the completed descriptions, each prefixed with the
    /// checked checkbox marker.
    pub fn collect_done_md(&self) -> (r: Vec<String>)
        ensures
            r.deep_view() == visible_done(self@.completed),
    {
        let mut out: Vec<String> = Vec::new();
        let mut i: usize = 0;
        while i < self.done.len()
            invariant
                i <= self.done.len(),
                out.deep_view().len() == i,
                forall|k: int|
                    0 <= k < i ==> out.deep_view()[k] == checked_prefix()
                        + self@.completed[k],
            decreases self.done.len() - i,
        {
            let mut row = String::new();
            row.append("[x] ");
            row.append(self.done[i].as_str());
            proof {
                reveal_strlit("[x] ");
                assert(("[x] ")@ =~= checked_prefix());
                assert(row@ =~= checked_prefix() + self@.completed[i as int]);
            }
            let ghost pre = out.deep_view();
            out.push(row);
            proof {
                assert(out.deep_view() =~= pre.push(checked_prefix() + self@.completed[i as int]));
            }
            i = i + 1;
        }
        proof {
            assert(out.deep_view() =~= visible_done(self@.completed));
        }
        out
    }

    /// The display rows of the `All` view: the pending rows followed by the
    /// completed rows.
    pub fn collect_all_md(&self) -> (r: Vec<String>)
        ensures
            r.deep_view() == visible_spec(self@, Tabs::All),
    {
        let mut list = self.collect_todo_md();
        let mut rest = self.collect_done_md();
        let ghost a = list.deep_view();
        let ghost b = rest.deep_view();
        list.append(&mut rest);
        proof {
            assert(list.deep_view() =~= a + b);
        }
        list
    }

    /// The visible list for a tab: the pure projection the renderer draws.
    /// The result is a function of the store and the tab alone, so two calls
    /// without an intervening mutation yield identical output.
    pub fn visible(&self, tab: Tabs) -> (r: Vec<String>)
        ensures
            r.deep_view() == visible_spec(self@, tab),
    {
        match tab {
            Tabs::All => self.collect_all_md(),
            Tabs::Todo => self.collect_todo_md(),
            Tabs::Done => self.collect_done_md(),
        }
    }

    /// The persisted form of the store: the content to write to the task
    /// file.  Writing the file itself is the storage collaborator's job.
    pub fn save(&self) -> (r: String)
        ensures
            r@ == save_spec(self@),
    {
        let mut out = String::new();
        proof {
            assert(self@.pending.take(0) =~= Seq::<Seq<char>>::empty());
        }
        let mut i: usize = 0;
        while i < self.todo.len()
            invariant
                i <= self.todo.len(),
                out@ == save_lines(self@.pending.take(i as int), todo_tag()),
            decreases self.todo.len() - i,
        {
            out.append("TODO: ");
            out.append(self.todo[i].as_str());
            out.append("\n");
            proof {
                reveal_strlit("TODO: ");
                reveal_strlit("\n");
                assert(("TODO: ")@ =~= todo_tag());
                assert(("\n")@ =~= seq!['\n']);
                lemma_save_lines_push(
                    self@.pending.take(i as int),
                    todo_tag(),
                    self@.pending[i as int],
                );
                assert(self@.pending.take(i as int).push(self@.pending[i as int])
                    =~= self@.pending.take(i as int + 1));
                assert(out@ =~= save_lines(self@.pending.take(i as int + 1), todo_tag()));
            }
            i = i + 1;
        }
        proof {
            assert(self@.pending.take(self@.pending.len() as int) =~= self@.pending);
            assert(self@.completed.take(0) =~= Seq::<Seq<char>>::empty());
        }
        let ghost head = out@;
        proof {
            assert(out@ =~= head + save_lines(self@.completed.take(0), done_tag()));
        }
        let mut i: usize = 0;
        while i < self.done.len()
            invariant
                i <= self.done.len(),
                head == save_lines(self@.pending, todo_tag()),
                out@ == head + save_lines(self@.completed.take(i as int), done_tag()),
            decreases self.done.len() - i,
        {
            out.append("DONE: ");
            out.append(self.done[i].as_str());
            out.append("\n");
            proof {
                reveal_strlit("DONE: ");
                reveal_strlit("\n");
                assert(("DONE: ")@ =~= done_tag());
                assert(("\n")@ =~= seq!['\n']);
                lemma_save_lines_push(
                    self@.completed.take(i as int),
                    done_tag(),
                    self@.completed[i as int],
                );
                assert(self@.completed.take(i as int).push(self@.completed[i as int])
                    =~= self@.completed.take(i as int + 1));
                assert(out@ =~= head + save_lines(self@.completed.take(i as int + 1), done_tag()));
            }
            i = i + 1;
        }
        proof {
            assert(self@.completed.take(self@.completed.len() as int) =~= self@.completed);
        }
        out
    }

    /// A store read out of the content of a task file.  Reading the file
    /// itself is the storage collaborator's job.
    #[verifier::rlimit(50)]
    pub fn from(content: &str) -> (t: Todo)
        ensures
            t@.pending == parse_spec(content@).0,
            t@.completed == parse_spec(content@).1,
    {
        let ghost s = content@;
        let n = content.unicode_len();
        let mut todo_vec: Vec<String> = Vec::new();
        let mut done_vec: Vec<String> = Vec::new();
        proof {
            assert(s.subrange(0, n as int) =~= s);
            assert(todo_vec.deep_view() =~= Seq::<Seq<char>>::empty());
            assert(done_vec.deep_view() =~= Seq::<Seq<char>>::empty());
        }
        let mut i: usize = 0;
        while i < n
            invariant
                n == s.len(),
                s == content@,
                i <= n,
                parse_spec(s).0 == todo_vec.deep_view() + parse_spec(
                    s.subrange(i as int, n as int),
                ).0,
                parse_spec(s).1 == done_vec.deep_view() + parse_spec(
                    s.subrange(i as int, n as int),
                ).1,
            decreases n - i,
        {
            let ghost sfx = s.subrange(i as int, n as int);
            let ghost pre_t = todo_vec.deep_view();
            let ghost pre_d = done_vec.deep_view();
            let j = scan_line_end(content, i, n);
            let mut e = j;
            if e > i {
                if content.get_char(e - 1) == '\r' {
                    e = e - 1;
                }
            }
            let ghost line = strip_cr(s.subrange(i as int, j as int));
            proof {
                assert(s.subrange(i as int, j as int).len() == j - i);
                if j > i && s[j as int - 1] == '\r' {
                    assert(s.subrange(i as int, j as int).last() == s[j as int - 1]);
                    assert(line =~= s.subrange(i as int, e as int));
                } else {
                    assert(line =~= s.subrange(i as int, e as int));
                }
            }
            let (is_todo, is_done) = line_tag(content, i, e);
            if is_todo || is_done {
                proof {
                    assert(line.len() >= 6);
                }
                let a = scan_non_space_front(content, i + 6, e);
                let b = scan_non_space_back(content, a, e);
                let piece = content.substring_char(a, b);
                let item = piece.to_owned();
                proof {
                    let body = line.subrange(6, line.len() as int);
                    assert(body =~= s.subrange(i as int + 6, e as int));
                    lemma_skip_front_at(body, 0, a - (i + 6));
                    if a < e {
                        assert(b > a);
                        lemma_skip_back_at(body, body.len() as int, b - (i + 6));
                        assert(trim_spec(body) =~= s.subrange(a as int, b as int));
                    } else {
                        lemma_skip_back_bounds(body, body.len() as int);
                        assert(trim_spec(body) =~= Seq::<char>::empty());
                        assert(s.subrange(a as int, b as int) =~= Seq::<char>::empty());
                    }
                    assert(line_payload(line) =~= piece@);
                }
                if is_todo {
                    todo_vec.push(item);
                    proof {
                        assert(todo_vec.deep_view() =~= pre_t.push(line_payload(line)));
                    }
                } else {
                    done_vec.push(item);
                    proof {
                        assert(done_vec.deep_view() =~= pre_d.push(line_payload(line)));
                    }
                }
            }
            let ni = if j < n {
                j + 1
            } else {
                n
            };
            proof {
                lemma_find_newline_at(sfx, 0, j - i);
                assert(sfx.subrange(0, j - i) =~= s.subrange(i as int, j as int));
                let nxt = if 0 <= (j - i) < sfx.len() {
                    j - i + 1
                } else {
                    sfx.len() as int
                };
                assert(sfx.subrange(nxt, sfx.len() as int) =~= s.subrange(ni as int, n as int));
                let rest = parse_spec(s.subrange(ni as int, n as int));
                if is_todo {
                    assert(parse_spec(sfx).0 =~= seq![line_payload(line)] + rest.0);
                    assert(parse_spec(sfx).1 == rest.1);
                    assert(pre_t + (seq![line_payload(line)] + rest.0) =~= pre_t.push(
                        line_payload(line),
                    ) + rest.0);
                } else if is_done {
                    assert(parse_spec(sfx).0 == rest.0);
                    assert(parse_spec(sfx).1 =~= seq![line_payload(line)] + rest.1);
                    assert(pre_d + (seq![line_payload(line)] + rest.1) =~= pre_d.push(
                        line_payload(line),
                    ) + rest.1);
                } else {
                    assert(parse_spec(sfx) == rest);
                }
                assert(parse_spec(s).0 == todo_vec.deep_view() + rest.0);
                assert(parse_spec(s).1 == done_vec.deep_view() + rest.1);
            }
            i = ni;
        }
        proof {
            assert(s.subrange(n as int, n as int) =~= Seq::<char>::empty());
            assert(todo_vec.deep_view() + parse_spec(Seq::<char>::empty()).0
                =~= todo_vec.deep_view());
            assert(done_vec.deep_view() + parse_spec(Seq::<char>::empty()).1
                =~= done_vec.deep_view());
        }
        Todo { todo: todo_vec, done: done_vec }
    }
}

} // verus!
