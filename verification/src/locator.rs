//! Cascading lookup of a project's declared version: a directory and its
//! ancestors, nearest first, searched for one of two config file formats.

use vstd::prelude::*;
use crate::errors::Error;
use crate::specifier::opt_view;
use crate::text::{find_char, spec_trim, trim_str};

verus! {

/// The configuration files visible at one directory level: the whole
/// content of the primary, single-line file, if it exists and is readable,
/// and of the secondary multi-tool file likewise.  An unreadable file
/// counts as absent.
pub struct DirLevel {
    pub primary: Option<String>,
    pub secondary: Option<String>,
}

/// The prefix that declares a java line in the secondary format: the tool
/// token `java` followed by one space.
pub open spec fn spec_java_prefix() -> Seq<char> {
    seq!['j', 'a', 'v', 'a', ' ']
}

/// Whether the trimmed line declares a java version.
pub open spec fn spec_is_java_line(t: Seq<char>) -> bool {
    t.len() >= 5 && t.take(5) == spec_java_prefix()
}

/// The declaration of the first java line of a secondary file's content:
/// the content splits into lines on `\n`, each line is trimmed, and the
/// first one beginning with `java ` yields what follows that prefix.
pub open spec fn spec_java_line_lookup(s: Seq<char>) -> Option<Seq<char>>
    decreases s.len(),
{
    if s.len() == 0 {
        None
    } else {
        match s.index_of_first('\n') {
            Some(i) => if 0 <= i < s.len() {
                // The first occurrence always lies inside the string; the
                // bound keeps the recursion visibly decreasing.
                let t = spec_trim(s.take(i));
                if spec_is_java_line(t) {
                    Some(t.skip(5))
                } else {
                    spec_java_line_lookup(s.skip(i + 1))
                }
            } else {
                None
            },
            None => {
                let t = spec_trim(s);
                if spec_is_java_line(t) {
                    Some(t.skip(5))
                } else {
                    None
                }
            },
        }
    }
}

/// Whether the line, already trimmed, begins with the `java ` prefix.
fn is_java_line(t: &str) -> (r: bool)
    ensures
        r == spec_is_java_line(t@),
{
    let n = t.unicode_len();
    if n < 5 {
        return false;
    }
    let r = t.get_char(0) == 'j' && t.get_char(1) == 'a' && t.get_char(2) == 'v' && t.get_char(3)
        == 'a' && t.get_char(4) == ' ';
    proof {
        if r {
            assert(t@.take(5) =~= spec_java_prefix());
        }
        if spec_is_java_line(t@) {
            assert(t@[0] == t@.take(5)[0]);
            assert(t@[1] == t@.take(5)[1]);
            assert(t@[2] == t@.take(5)[2]);
            assert(t@[3] == t@.take(5)[3]);
            assert(t@[4] == t@.take(5)[4]);
        }
    }
    r
}

/// Finds the declaration of the first java line among the lines of a
/// secondary config file's content: that line, trimmed, with the `java `
/// prefix removed.
pub fn find_java_line(contents: &str) -> (r: Option<String>)
    ensures
        match r {
            Some(x) => spec_java_line_lookup(contents@) == Some(x@),
            None => spec_java_line_lookup(contents@) is None,
        },
{
    let n = contents.unicode_len();
    proof {
        assert(contents@.skip(0) =~= contents@);
    }
    let mut pos: usize = 0;
    while pos < n
        invariant
            n == contents@.len(),
            0 <= pos <= n,
            spec_java_line_lookup(contents@) == spec_java_line_lookup(
                contents@.skip(pos as int),
            ),
        decreases n - pos,
    {
        let rest = contents.substring_char(pos, n);
        proof {
            assert(rest@ =~= contents@.skip(pos as int));
        }
        match find_char(rest, '\n') {
            Some(i) => {
                proof {
                    rest@.index_of_first_ensures('\n');
                }
                let line = rest.substring_char(0, i);
                proof {
                    assert(line@ =~= rest@.take(i as int));
                }
                let t = trim_str(line);
                if is_java_line(t) {
                    let tn = t.unicode_len();
                    proof {
                        assert(t@.subrange(5, tn as int) =~= t@.skip(5));
                    }
                    return Some(String::from_str(t.substring_char(5, tn)));
                }
                proof {
                    assert(rest@.skip(i + 1) =~= contents@.skip(pos + i + 1));
                }
                pos = pos + i + 1;
            },
            None => {
                let t = trim_str(rest);
                if is_java_line(t) {
                    let tn = t.unicode_len();
                    proof {
                        assert(t@.subrange(5, tn as int) =~= t@.skip(5));
                    }
                    return Some(String::from_str(t.substring_char(5, tn)));
                }
                proof {
                    assert(contents@.skip(n as int) =~= Seq::<char>::empty());
                }
                pos = n;
            },
        }
    }
    proof {
        assert(contents@.skip(n as int) =~= Seq::<char>::empty());
    }
    None
}

/// The specifier declared nearest to the starting directory: at each level,
/// nearest first, a primary file's trimmed content wins; otherwise the
/// secondary file's java declaration; otherwise the search ascends.
pub open spec fn spec_locate(levels: Seq<DirLevel>) -> Option<Seq<char>>
    decreases levels.len(),
{
    if levels.len() == 0 {
        None
    } else {
        match opt_view(levels[0].primary) {
            Some(c) => Some(spec_trim(c)),
            None => match opt_view(levels[0].secondary) {
                Some(c) => match spec_java_line_lookup(c) {
                    Some(x) => Some(x),
                    None => spec_locate(levels.drop_first()),
                },
                None => spec_locate(levels.drop_first()),
            },
        }
    }
}

/// Walks the directory levels, nearest first, and returns the specifier
/// declared by the first level holding a primary config file or a
/// secondary file with a java line; exhausting the levels means no
/// configuration exists.
pub fn locate_specifier(levels: &Vec<DirLevel>) -> (r: Result<String, Error>)
    ensures
        match r {
            Ok(x) => spec_locate(levels@) == Some(x@),
            Err(e) => spec_locate(levels@) is None && e == Error::NoConfigFound,
        },
{
    let n = levels.len();
    proof {
        assert(levels@.skip(0) =~= levels@);
    }
    let mut i: usize = 0;
    while i < n
        invariant
            n == levels@.len(),
            0 <= i <= n,
            spec_locate(levels@) == spec_locate(levels@.skip(i as int)),
        decreases n - i,
    {
        proof {
            assert(levels@.skip(i as int)[0] == levels@[i as int]);
            assert(levels@.skip(i as int).drop_first() =~= levels@.skip(i + 1));
        }
        match &levels[i].primary {
            Some(c) => {
                return Ok(String::from_str(trim_str(c.as_str())));
            },
            None => {},
        }
        match &levels[i].secondary {
            Some(c) => {
                match find_java_line(c.as_str()) {
                    Some(x) => {
                        return Ok(x);
                    },
                    None => {},
                }
            },
            None => {},
        }
        i += 1;
    }
    proof {
        assert(levels@.skip(n as int) =~= Seq::<DirLevel>::empty());
    }
    Err(Error::NoConfigFound)
}

} // verus!
