//! The editors whose work is looked at, and the text format that lists them:
//! one name on each line.

use vstd::prelude::*;
use vstd::string::StringExecFns;
use crate::order::str_eq;
use crate::strings::push_char;

verus! {

/// `c` has the Unicode property White_Space.
pub open spec fn spec_is_white_space(c: char) -> bool {
    let u = c as u32;
    ||| 0x09 <= u <= 0x0D
    ||| u == 0x20
    ||| u == 0x85
    ||| u == 0xA0
    ||| u == 0x1680
    ||| 0x2000 <= u <= 0x200A
    ||| u == 0x2028
    ||| u == 0x2029
    ||| u == 0x202F
    ||| u == 0x205F
    ||| u == 0x3000
}

/// Whether `c` has the Unicode property White_Space.
#[verifier::when_used_as_spec(spec_is_white_space)]
pub fn is_white_space(c: char) -> (yes: bool)
    ensures
        yes == spec_is_white_space(c),
{
    let u = c as u32;
    (0x09 <= u && u <= 0x0D) || u == 0x20 || u == 0x85 || u == 0xA0 || u == 0x1680 || (0x2000 <= u
        && u <= 0x200A) || u == 0x2028 || u == 0x2029 || u == 0x202F || u == 0x205F || u == 0x3000
}

/// `s` without the white space at its end.
pub open spec fn trim_end(s: Seq<char>) -> Seq<char>
    decreases s.len(),
{
    if s.len() > 0 && spec_is_white_space(s.last()) {
        trim_end(s.drop_last())
    } else {
        s
    }
}

/// The characters of `text` from `start` up to `end` are one line: the line
/// begins at the start of the text or after a line feed, ends before a line
/// feed or at the end of the text, and holds no line feed.
pub open spec fn is_line(text: Seq<char>, start: int, end: int) -> bool {
    &&& 0 <= start <= end <= text.len()
    &&& start == 0 || text[start - 1] == '\n'
    &&& end == text.len() || text[end] == '\n'
    &&& forall|k: int| start <= k < end ==> text[k] != '\n'
}

/// `name` stands on a line of `text` that ends before `limit`: it is that
/// line without the white space at its end, and it is not empty.
pub open spec fn is_name_before(text: Seq<char>, limit: int, name: Seq<char>) -> bool {
    &&& name.len() > 0
    &&& exists|start: int, end: int|
        #![trigger is_line(text, start, end)]
        is_line(text, start, end) && end < limit && trim_end(text.subrange(start, end)) == name
}

/// The names on the lines of `text` that end before `limit`.
pub open spec fn names_before(text: Seq<char>, limit: int) -> Set<Seq<char>> {
    Set::new(|name: Seq<char>| is_name_before(text, limit, name))
}

/// The names that `text` lists: each line without the white space at its end,
/// where that leaves anything. A carriage return is white space, so lines may
/// end in a line feed alone or in a carriage return and a line feed.
pub open spec fn editor_names(text: Seq<char>) -> Set<Seq<char>> {
    names_before(text, text.len() as int + 1)
}

/// A set of editor names.
#[derive(Clone, Debug)]
pub struct Editors {
    names: Vec<String>,
}

impl View for Editors {
    type V = Set<Seq<char>>;

    closed spec fn view(&self) -> Set<Seq<char>> {
        Set::new(|name: Seq<char>| exists|i: int| 0 <= i < self.names@.len() && (#[trigger] self.names@[i])@ == name)
    }
}

impl Editors {
    /// Creates an empty set.
    pub fn new() -> (editors: Editors)
        ensures
            editors@ == Set::<Seq<char>>::empty(),
    {
        Editors { names: Vec::new() }
    }

    /// Whether `name` is in the set.
    pub fn contains(&self, name: &str) -> (found: bool)
        ensures
            found == self@.contains(name@),
    {
        let mut i: usize = 0;
        while i < self.names.len()
            invariant
                i <= self.names.len(),
                forall|j: int| 0 <= j < i ==> (#[trigger] self.names@[j])@ != name@,
            decreases self.names.len() - i,
        {
            if str_eq(self.names[i].as_str(), name) {
                return true;
            }
            i += 1;
        }
        false
    }

    /// Adds `name` to the set. A name that is already there changes nothing.
    pub fn insert(&mut self, name: String)
        ensures
            final(self)@ == old(self)@.insert(name@),
    {
        if !self.contains(name.as_str()) {
            let ghost before = self.names@;
            self.names.push(name);
            assert forall|n: Seq<char>| old(self)@.insert(name@).contains(n) implies self@.contains(
                n,
            ) by {
                if old(self)@.contains(n) {
                    let i = choose|i: int| 0 <= i < before.len() && (#[trigger] before[i])@ == n;
                    assert(self.names@[i]@ == n);
                } else {
                    assert(self.names@[before.len() as int]@ == n);
                }
            }
        }
    }
}

proof fn lemma_trim_end_push(s: Seq<char>, c: char)
    ensures
        spec_is_white_space(c) ==> trim_end(s.push(c)) == trim_end(s),
        !spec_is_white_space(c) ==> trim_end(s.push(c)) == s.push(c),
{
    assert(s.push(c).drop_last() =~= s);
}

/// Once the line that starts at `start` is known to end at `end`, the names
/// before the next line are those before this line and the name on it: a line
/// that ends at or after `start` can only be the line from `start` to `end`.
proof fn lemma_line_done(text: Seq<char>, start: int, end: int)
    requires
        is_line(text, start, end),
    ensures
        names_before(text, end + 1) == (if trim_end(text.subrange(start, end)).len() > 0 {
            names_before(text, start).insert(trim_end(text.subrange(start, end)))
        } else {
            names_before(text, start)
        }),
{
}

/// Reads a list of editors: one name on each line, white space at the end of
/// a line dropped, lines that are empty or all white space skipped.
pub fn parse_amazon_editors(text: &str) -> (editors: Editors)
    ensures
        editors@ == editor_names(text@),
{
    let mut editors = Editors::new();
    // The current line so far, split where its last run of white space begins.
    let mut name = String::new();
    let mut pending = String::new();
    let ghost mut start: int = 0;
    for c in it: text.chars()
        invariant
            it.seq() == text@,
            0 <= start <= it.index() <= text@.len(),
            start == 0 || text@[start - 1] == '\n',
            forall|k: int| start <= k < it.index() ==> text@[k] != '\n',
            name@ + pending@ == text@.subrange(start, it.index() as int),
            name@ == trim_end(text@.subrange(start, it.index() as int)),
            editors@ == names_before(text@, start),
    {
        let ghost i = it.index() as int;
        let ghost line = text@.subrange(start, i);
        if c == '\n' {
            proof {
                lemma_line_done(text@, start, i);
                start = i + 1;
            }
            if !name.as_str().is_empty() {
                editors.insert(name);
            }
            name = String::new();
            pending = String::new();
        } else {
            proof {
                lemma_trim_end_push(line, c);
                assert(text@.subrange(start, i + 1) =~= line.push(c));
            }
            if is_white_space(c) {
                push_char(&mut pending, c);
            } else {
                name.append(pending.as_str());
                push_char(&mut name, c);
                pending = String::new();
            }
        }
    }
    proof {
        lemma_line_done(text@, start, text@.len() as int);
    }
    if !name.as_str().is_empty() {
        editors.insert(name);
    }
    editors
}

} // verus!
