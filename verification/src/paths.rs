//! File-system locations as the library sees them: a starting location and
//! the names joined onto it, in order.

use vstd::prelude::*;
use vstd::string::*;
use crate::text::{chars_of, owned, push_char};

verus! {

/// A location: a starting path followed by plain names joined onto it.
#[derive(Clone, Debug)]
pub struct AppPath {
    /// The starting path, as text.
    pub root: String,
    /// The names joined onto the root, in order.
    pub parts: Vec<String>,
}

/// The text of each name of a list.
pub open spec fn parts_view(parts: Seq<String>) -> Seq<Seq<char>> {
    parts.map_values(|p: String| p@)
}

/// Whether `c` separates path components where `separator` is the platform's own.
pub open spec fn is_separator(c: char, separator: char) -> bool {
    c == '/' || c == separator
}

/// `base` with `part` adjoined: a separator goes between them unless `base`
/// is empty or already ends with one.
pub open spec fn adjoin(base: Seq<char>, part: Seq<char>, separator: char) -> Seq<char> {
    if base.len() == 0 || is_separator(base.last(), separator) {
        base + part
    } else {
        base + seq![separator] + part
    }
}

/// The text of a root with names joined onto it in order.
pub open spec fn rendered(root: Seq<char>, parts: Seq<Seq<char>>, separator: char) -> Seq<char>
    decreases parts.len(),
{
    if parts.len() == 0 {
        root
    } else {
        adjoin(rendered(root, parts.drop_last(), separator), parts.last(), separator)
    }
}

impl AppPath {
    /// The names joined onto the root, as text.
    pub open spec fn parts_text(&self) -> Seq<Seq<char>> {
        parts_view(self.parts@)
    }

    /// The location named by `root` alone.
    pub fn from_text(root: &str) -> (p: AppPath)
        ensures
            p.root@ == root@,
            p.parts_text() == Seq::<Seq<char>>::empty(),
    {
        let p = AppPath { root: owned(root), parts: Vec::new() };
        assert(p.parts_text() =~= Seq::<Seq<char>>::empty());
        p
    }

    /// This location with `part` joined onto it.
    pub fn join(&self, part: &str) -> (p: AppPath)
        ensures
            p.root == self.root,
            p.parts_text() == self.parts_text().push(part@),
    {
        let mut parts: Vec<String> = Vec::new();
        let mut i: usize = 0;
        while i < self.parts.len()
            invariant
                i <= self.parts@.len(),
                parts@.len() == i,
                parts_view(parts@) == parts_view(self.parts@).subrange(0, i as int),
            decreases self.parts@.len() - i,
        {
            let ghost prev = parts@;
            let c = self.parts[i].clone();
            parts.push(c);
            proof {
                assert(parts@ == prev.push(c));
                assert forall|m: int| 0 <= m < i + 1 implies #[trigger] parts_view(parts@)[m]
                    == parts_view(self.parts@)[m] by {
                    if m < i {
                        assert(parts@[m] == prev[m]);
                        assert(parts_view(prev)[m] == parts_view(self.parts@).subrange(0, i as int)[m]);
                    }
                }
                assert(parts_view(parts@) =~= parts_view(self.parts@).subrange(0, i + 1));
            }
            i += 1;
        }
        assert(parts_view(self.parts@).subrange(0, self.parts@.len() as int) =~= parts_view(self.parts@));
        let ghost prev = parts@;
        parts.push(owned(part));
        assert forall|m: int| 0 <= m < prev.len() implies #[trigger] parts_view(parts@)[m]
            == parts_view(prev)[m] by {
            assert(parts@[m] == prev[m]);
        }
        let p = AppPath { root: self.root.clone(), parts };
        assert(p.parts_text() =~= self.parts_text().push(part@));
        p
    }

    /// This location as text, with `separator` between components.
    pub fn render(&self, separator: char) -> (s: String)
        ensures
            s@ == rendered(self.root@, self.parts_text(), separator),
    {
        let mut s = self.root.clone();
        let mut i: usize = 0;
        while i < self.parts.len()
            invariant
                i <= self.parts@.len(),
                s@ == rendered(self.root@, self.parts_text().subrange(0, i as int), separator),
            decreases self.parts@.len() - i,
        {
            let cs = chars_of(s.as_str());
            let n = cs.len();
            if !(n == 0 || cs[n - 1] == '/' || cs[n - 1] == separator) {
                push_char(&mut s, separator);
            }
            s.append(self.parts[i].as_str());
            proof {
                let pre = self.parts_text().subrange(0, i + 1);
                assert(pre.drop_last() =~= self.parts_text().subrange(0, i as int));
                assert(pre.last() == self.parts[i as int]@);
            }
            i += 1;
        }
        assert(self.parts_text().subrange(0, self.parts@.len() as int) =~= self.parts_text());
        s
    }
}

} // verus!
