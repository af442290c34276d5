use vstd::prelude::*;
use vstd::string::StrSliceExecFns;

verus! {

pub const KEY_ENTER: char = '\r';
pub const KEY_BACKSPACE: char = '\u{8}';
pub const KEY_DELETE: char = '\u{7f}';
pub const KEY_TAB: char = '\t';
pub const KEY_ESCAPE: char = '\u{1b}';
pub const KEY_LEFT_SQUARE_BRACKET: char = '[';

/// Whether `char::is_alphanumeric` holds of a character.
pub uninterp spec fn alphanumeric(c: char) -> bool;

/// Relies on `char::is_alphanumeric`: whether the character is alphabetic or numeric.
#[verifier::external_body]
fn is_alphanumeric(c: char) -> (r: bool)
    ensures
        r == alphanumeric(c),
{
    c.is_alphanumeric()
}

/// Characters the editor echoes as they are typed.
pub open spec fn echoed(c: char) -> bool {
    alphanumeric(c) || c == ' ' || c == '_'
}

/// The terminal output that erases `n` characters.
pub open spec fn erase(n: nat) -> Seq<char>
    decreases n,
{
    if n == 0 {
        Seq::empty()
    } else {
        erase((n - 1) as nat) + seq![KEY_BACKSPACE, ' ', KEY_BACKSPACE]
    }
}

/// The output that replaces the shown `line` by `text`.
pub open spec fn shown_replaced(line: Seq<char>, text: Seq<char>) -> Seq<char> {
    erase(line.len()) + text
}

pub open spec fn views(v: Seq<Vec<char>>) -> Seq<Seq<char>> {
    v.map_values(|x: Vec<char>| x@)
}

pub open spec fn is_prefix(p: Seq<char>, s: Seq<char>) -> bool {
    p.len() <= s.len() && s.subrange(0, p.len() as int) == p
}

/// Indices, among the first `n`, of the names that start with `line`, in order.
pub open spec fn matching(names: Seq<Seq<char>>, line: Seq<char>, n: nat) -> Seq<usize>
    decreases n,
{
    if n == 0 {
        Seq::empty()
    } else {
        let m = matching(names, line, (n - 1) as nat);
        if is_prefix(line, names[n - 1]) {
            m.push((n - 1) as usize)
        } else {
            m
        }
    }
}

/// Index of the first entry equal to `x`.
pub open spec fn first_index(s: Seq<Seq<char>>, x: Seq<char>) -> Option<int> {
    if exists|i: int| 0 <= i < s.len() && s[i] == x {
        Some(choose|i: int| 0 <= i < s.len() && s[i] == x && forall|k: int| 0 <= k < i ==> s[k] != x)
    } else {
        None
    }
}

/// The buffer ends with an escape sequence: escape, `[`, and one ASCII character.
pub open spec fn escape_at_end(l: Seq<char>) -> bool {
    &&& l.len() >= 3
    &&& l[l.len() - 3] == KEY_ESCAPE
    &&& l[l.len() - 2] == KEY_LEFT_SQUARE_BRACKET
    &&& (l[l.len() - 1] as u32) < 0x80
}

/// The editor's line, completion list and output after one input character;
/// no output (`None`) when the character ends the line.
pub type EditStep = (Seq<char>, Seq<usize>, Option<Seq<char>>);

/// Up arrow: the previous history entry, or the newest one on an empty line.
pub open spec fn history_up(line: Seq<char>, history: Seq<Seq<char>>) -> EditStep {
    if history.len() == 0 {
        (line, Seq::empty(), Some(Seq::empty()))
    } else if line.len() > 0 {
        match first_index(history, line) {
            Some(p) => {
                let text = history[if p > 0 {
                    p - 1
                } else {
                    0
                }];
                (text, Seq::empty(), Some(shown_replaced(line, text)))
            },
            None => (line, Seq::empty(), Some(Seq::empty())),
        }
    } else {
        let text = history.last();
        (text, Seq::empty(), Some(shown_replaced(line, text)))
    }
}

/// Down arrow: the next history entry, or an empty line after the newest.
pub open spec fn history_down(line: Seq<char>, history: Seq<Seq<char>>) -> EditStep {
    if history.len() > 0 && line.len() > 0 {
        match first_index(history, line) {
            Some(p) => {
                let text = if p + 1 < history.len() {
                    history[p + 1]
                } else {
                    Seq::empty()
                };
                (text, Seq::empty(), Some(shown_replaced(line, text)))
            },
            None => (line, Seq::empty(), Some(Seq::empty())),
        }
    } else {
        (line, Seq::empty(), Some(Seq::empty()))
    }
}

/// Tab: cycles through the names that start with what was typed.
pub open spec fn complete(line: Seq<char>, completions: Seq<usize>, names: Seq<Seq<char>>) -> EditStep {
    let comps = if completions.len() == 0 {
        matching(names, line, names.len())
    } else {
        completions
    };
    if comps.len() == 0 {
        (line, comps, Some(Seq::empty()))
    } else {
        let shown = comps.map_values(|i: usize| names[i as int]);
        let next = match first_index(shown, line) {
            Some(p) => if p + 1 < comps.len() {
                p + 1
            } else {
                0
            },
            None => 0,
        };
        let text = names[comps[next] as int];
        (text, comps, Some(shown_replaced(line, text)))
    }
}

/// One input character.
pub open spec fn edit(
    line: Seq<char>,
    completions: Seq<usize>,
    c: char,
    names: Seq<Seq<char>>,
    history: Seq<Seq<char>>,
) -> EditStep {
    if c == KEY_ENTER {
        (line, completions, None)
    } else if c == KEY_DELETE || c == KEY_BACKSPACE {
        if line.len() > 0 {
            (line.drop_last(), Seq::empty(), Some(erase(1)))
        } else {
            (line, Seq::empty(), Some(Seq::empty()))
        }
    } else if c == KEY_TAB {
        complete(line, completions, names)
    } else {
        let l1 = line.push(c);
        if escape_at_end(l1) {
            let base = l1.subrange(0, l1.len() - 3);
            if c == 'A' {
                history_up(base, history)
            } else if c == 'B' {
                history_down(base, history)
            } else {
                (
                    base,
                    Seq::empty(),
                    Some("unknown escape sequence: "@ + seq![c] + "\n$ "@),
                )
            }
        } else {
            (l1, Seq::empty(), Some(if echoed(c) {
                seq![c]
            } else {
                Seq::empty()
            }))
        }
    }
}

/// What the editor answers to one character.
#[derive(Debug)]
pub enum EditResult {
    /// Text to show; the line goes on.
    Echo(Vec<char>),
    /// The line is complete.
    Submit,
}

pub open spec fn result_view(r: EditResult) -> Option<Seq<char>> {
    match r {
        EditResult::Echo(v) => Some(v@),
        EditResult::Submit => None,
    }
}

/// State of the shell's line input.
#[derive(Debug)]
pub struct LineEditor {
    /// The characters typed so far.
    pub line: Vec<char>,
    /// Indices of the names offered by tab completion, once computed.
    pub completions: Vec<usize>,
}

fn copy_chars(v: &Vec<char>) -> (r: Vec<char>)
    ensures
        r@ == v@,
{
    let mut r: Vec<char> = Vec::new();
    let mut i: usize = 0;
    while i < v.len()
        invariant
            i <= v@.len(),
            r@ == v@.subrange(0, i as int),
        decreases v@.len() - i,
    {
        r.push(v[i]);
        proof {
            assert(v@.subrange(0, i + 1) =~= v@.subrange(0, i as int).push(v@[i as int]));
        }
        i += 1;
    }
    assert(v@.subrange(0, v@.len() as int) =~= v@);
    r
}

fn str_chars(s: &str) -> (r: Vec<char>)
    ensures
        r@ == s@,
{
    let n = s.unicode_len();
    let mut r: Vec<char> = Vec::new();
    let mut i: usize = 0;
    while i < n
        invariant
            n == s@.len(),
            i <= n,
            r@ == s@.subrange(0, i as int),
        decreases n - i,
    {
        r.push(s.get_char(i));
        proof {
            assert(s@.subrange(0, i + 1) =~= s@.subrange(0, i as int).push(s@[i as int]));
        }
        i += 1;
    }
    assert(s@.subrange(0, n as int) =~= s@);
    r
}

fn chars_equal(a: &Vec<char>, b: &Vec<char>) -> (r: bool)
    ensures
        r == (a@ == b@),
{
    if a.len() != b.len() {
        return false;
    }
    let mut i: usize = 0;
    while i < a.len()
        invariant
            a@.len() == b@.len(),
            i <= a@.len(),
            forall|k: int| 0 <= k < i ==> a@[k] == b@[k],
        decreases a@.len() - i,
    {
        if a[i] != b[i] {
            return false;
        }
        i += 1;
    }
    assert(a@ =~= b@);
    true
}

fn starts_with(s: &Vec<char>, p: &Vec<char>) -> (r: bool)
    ensures
        r == is_prefix(p@, s@),
{
    if p.len() > s.len() {
        return false;
    }
    let mut i: usize = 0;
    while i < p.len()
        invariant
            p@.len() <= s@.len(),
            i <= p@.len(),
            forall|k: int| 0 <= k < i ==> s@[k] == p@[k],
        decreases p@.len() - i,
    {
        if s[i] != p[i] {
            return false;
        }
        i += 1;
    }
    assert(s@.subrange(0, p@.len() as int) =~= p@);
    true
}

/// Index of the first name equal to `x`.
pub fn find_name(names: &Vec<Vec<char>>, x: &Vec<char>) -> (r: Option<usize>)
    ensures
        r matches Some(i) ==> first_index(views(names@), x@) == Some(i as int) && i < names@.len()
            && names@[i as int]@ == x@,
        r is None ==> first_index(views(names@), x@) is None,
{
    let ghost s = views(names@);
    let mut i: usize = 0;
    while i < names.len()
        invariant
            s == views(names@),
            i <= names@.len(),
            forall|k: int| 0 <= k < i ==> s[k] != x@,
        decreases names@.len() - i,
    {
        if chars_equal(&names[i], x) {
            proof {
                assert(s[i as int] == x@);
                let j = choose|j: int| 0 <= j < s.len() && s[j] == x@ && forall|k: int| 0 <= k < j ==> s[k] != x@;
                assert(j == i);
            }
            return Some(i);
        }
        i += 1;
    }
    None
}

/// What typing `c` shows, given whether `c` is alphanumeric: the character
/// itself if it is alphanumeric, a space or an underscore, else nothing.
pub fn echo(c: char, alphanumeric: bool) -> (r: Vec<char>)
    ensures
        r@ == (if alphanumeric || c == ' ' || c == '_' {
            seq![c]
        } else {
            Seq::empty()
        }),
{
    let mut out: Vec<char> = Vec::new();
    if alphanumeric || c == ' ' || c == '_' {
        out.push(c);
    }
    out
}

/// The output that erases `n` characters.
fn erase_output(n: usize) -> (r: Vec<char>)
    ensures
        r@ == erase(n as nat),
{
    let mut r: Vec<char> = Vec::new();
    let mut i: usize = 0;
    while i < n
        invariant
            i <= n,
            r@ == erase(i as nat),
        decreases n - i,
    {
        r.push(KEY_BACKSPACE);
        r.push(' ');
        r.push(KEY_BACKSPACE);
        proof {
            assert(erase((i + 1) as nat) =~= erase(i as nat) + seq![KEY_BACKSPACE, ' ', KEY_BACKSPACE]);
        }
        i += 1;
    }
    r
}

impl LineEditor {
    pub fn new() -> (r: LineEditor)
        ensures
            r.line@ == Seq::<char>::empty(),
            r.completions@ == Seq::<usize>::empty(),
    {
        LineEditor { line: Vec::new(), completions: Vec::new() }
    }

    /// Replaces the line by `text`; returns the output that shows it.
    fn replace(&mut self, text: &Vec<char>) -> (r: Vec<char>)
        ensures
            final(self).line@ == text@,
            final(self).completions@ == old(self).completions@,
            r@ == shown_replaced(old(self).line@, text@),
    {
        let mut out = erase_output(self.line.len());
        let copy = copy_chars(text);
        let mut shown = copy_chars(text);
        out.append(&mut shown);
        self.line = copy;
        out
    }
}

impl LineEditor {
    /// Every offered completion names one of `names`.
    pub open spec fn valid(&self, names: Seq<Vec<char>>) -> bool {
        forall|k: int| 0 <= k < self.completions@.len() ==> self.completions@[k] < names.len()
    }

    fn complete(&mut self, names: &Vec<Vec<char>>) -> (r: Vec<char>)
        requires
            old(self).valid(names@),
        ensures
            final(self).valid(names@),
            (final(self).line@, final(self).completions@, Some(r@)) == complete(
                old(self).line@,
                old(self).completions@,
                views(names@),
            ),
    {
        let ghost vn = views(names@);
        let ghost line0 = self.line@;
        if self.completions.len() == 0 {
            let mut i: usize = 0;
            while i < names.len()
                invariant
                    vn == views(names@),
                    self.line@ == line0,
                    i <= names@.len(),
                    self.completions@ == matching(vn, line0, i as nat),
                    self.valid(names@),
                decreases names@.len() - i,
            {
                if starts_with(&names[i], &self.line) {
                    self.completions.push(i);
                }
                i += 1;
            }
        }
        let ghost comps = self.completions@;
        assert(comps == (if old(self).completions@.len() == 0 {
            matching(vn, line0, vn.len())
        } else {
            old(self).completions@
        }));
        if self.completions.len() == 0 {
            return Vec::new();
        }
        let ghost shown = comps.map_values(|i: usize| vn[i as int]);
        let mut k: usize = 0;
        let mut found: Option<usize> = None;
        while k < self.completions.len() && found.is_none()
            invariant
                vn == views(names@),
                self.line@ == line0,
                self.completions@ == comps,
                self.valid(names@),
                shown == comps.map_values(|i: usize| vn[i as int]),
                k <= comps.len(),
                found is None ==> forall|j: int| 0 <= j < k ==> shown[j] != line0,
                found matches Some(f) ==> first_index(shown, line0) == Some(f as int) && f
                    < comps.len(),
            decreases comps.len() - k, (if found is None { 1int } else { 0int }),
        {
            if chars_equal(&names[self.completions[k]], &self.line) {
                proof {
                    assert(shown[k as int] == line0);
                    let j = choose|j: int|
                        0 <= j < shown.len() && shown[j] == line0 && forall|m: int|
                            0 <= m < j ==> shown[m] != line0;
                    assert(j == k);
                }
                found = Some(k);
            } else {
                k += 1;
            }
        }
        let next = match found {
            Some(f) => if f + 1 < self.completions.len() {
                f + 1
            } else {
                0
            },
            None => 0,
        };
        let idx = self.completions[next];
        self.replace(&names[idx])
    }

    fn history_up(&mut self, history: &Vec<Vec<char>>) -> (r: Vec<char>)
        requires
            old(self).completions@.len() == 0,
        ensures
            (final(self).line@, final(self).completions@, Some(r@)) == history_up(
                old(self).line@,
                views(history@),
            ),
    {
        if history.len() == 0 {
            return Vec::new();
        }
        if self.line.len() > 0 {
            match find_name(history, &self.line) {
                Some(p) => {
                    let q = if p > 0 {
                        p - 1
                    } else {
                        0
                    };
                    self.replace(&history[q])
                },
                None => Vec::new(),
            }
        } else {
            self.replace(&history[history.len() - 1])
        }
    }

    fn history_down(&mut self, history: &Vec<Vec<char>>) -> (r: Vec<char>)
        requires
            old(self).completions@.len() == 0,
        ensures
            (final(self).line@, final(self).completions@, Some(r@)) == history_down(
                old(self).line@,
                views(history@),
            ),
    {
        if history.len() > 0 && self.line.len() > 0 {
            match find_name(history, &self.line) {
                Some(p) => {
                    if p + 1 < history.len() {
                        self.replace(&history[p + 1])
                    } else {
                        let empty: Vec<char> = Vec::new();
                        self.replace(&empty)
                    }
                },
                None => Vec::new(),
            }
        } else {
            Vec::new()
        }
    }

    /// Handles one input character: editing keys change the line, tab cycles
    /// through the completions among `names`, the up and down arrows walk
    /// `history`, and enter ends the line. Returns what to show.
    pub fn feed(&mut self, c: char, names: &Vec<Vec<char>>, history: &Vec<Vec<char>>) -> (r:
        EditResult)
        requires
            old(self).valid(names@),
        ensures
            final(self).valid(names@),
            (final(self).line@, final(self).completions@, result_view(r)) == edit(
                old(self).line@,
                old(self).completions@,
                c,
                views(names@),
                views(history@),
            ),
    {
        if c == KEY_ENTER {
            return EditResult::Submit;
        }
        if c == KEY_DELETE || c == KEY_BACKSPACE {
            self.completions.clear();
            if self.line.len() > 0 {
                self.line.pop();
                return EditResult::Echo(erase_output(1));
            }
            return EditResult::Echo(Vec::new());
        }
        if c == KEY_TAB {
            let out = self.complete(names);
            return EditResult::Echo(out);
        }
        self.completions.clear();
        self.line.push(c);
        let n = self.line.len();
        if n >= 3 && self.line[n - 3] == KEY_ESCAPE && self.line[n - 2] == KEY_LEFT_SQUARE_BRACKET
            && (c as u32) < 0x80 {
            self.line.truncate(n - 3);
            if c == 'A' {
                EditResult::Echo(self.history_up(history))
            } else if c == 'B' {
                EditResult::Echo(self.history_down(history))
            } else {
                let mut out = str_chars("unknown escape sequence: ");
                out.push(c);
                let mut tail = str_chars("\n$ ");
                out.append(&mut tail);
                EditResult::Echo(out)
            }
        } else {
            EditResult::Echo(echo(c, is_alphanumeric(c)))
        }
    }
}

/// Records a submitted line in the history: a line already there moves to
/// the end, a new one is appended, an empty one is not recorded.
pub fn record_history(history: &mut Vec<Vec<char>>, line: &Vec<char>)
    ensures
        views(final(history)@) == (if line@.len() == 0 {
            views(old(history)@)
        } else {
            match first_index(views(old(history)@), line@) {
                Some(p) => views(old(history)@).remove(p).push(line@),
                None => views(old(history)@).push(line@),
            }
        }),
{
    if line.len() == 0 {
        return;
    }
    match find_name(history, line) {
        Some(p) => {
            let e = history.remove(p);
            proof {
                assert(views(history@) =~= views(old(history)@).remove(p as int));
            }
            history.push(e);
            proof {
                assert(views(history@) =~= views(old(history)@).remove(p as int).push(line@));
            }
        },
        None => {
            history.push(copy_chars(line));
            proof {
                assert(views(history@) =~= views(old(history)@).push(line@));
            }
        },
    }
}

} // verus!
