use vstd::prelude::*;
use vstd::string::StrSliceExecFns;
use vstd::string::StringExecFns;

use crate::format::ImageFormat;

verus! {

/// The capability that performs one image conversion.
///
/// The dispatcher never performs file work itself: the surrounding program
/// hands it an implementation of this trait, and the state machine can be
/// exercised with any stand-in.  A call converts the image at `input`,
/// writing the result into `output_folder` in the given target format, and
/// reports failure through a human-readable message.  Nothing is assumed of
/// the outcome: the dispatcher handles every possible result.
pub trait Converter {
    fn convert(&mut self, input: &str, output_folder: &str, format: ImageFormat) -> Result<
        (),
        String,
    >;
}

/// Whether `c` occurs anywhere in `s`.
pub open spec fn contains_char(s: Seq<char>, c: char) -> bool {
    exists|i: int| 0 <= i < s.len() && s[i] == c
}

/// The suffix of `s` after the last occurrence of `c`; all of `s` when `c`
/// does not occur.
pub open spec fn suffix_after_last(s: Seq<char>, c: char) -> Seq<char>
    decreases s.len(),
{
    if s.len() == 0 {
        s
    } else if s.last() == c {
        Seq::empty()
    } else {
        suffix_after_last(s.drop_last(), c).push(s.last())
    }
}

/// The prefix of `s` before the last occurrence of `c`; all of `s` when `c`
/// does not occur.
pub open spec fn prefix_before_last(s: Seq<char>, c: char) -> Seq<char>
    decreases s.len(),
{
    if s.len() == 0 {
        s
    } else if s.last() == c {
        s.drop_last()
    } else if contains_char(s.drop_last(), c) {
        prefix_before_last(s.drop_last(), c)
    } else {
        s
    }
}

/// The file-name part of a path: what follows the last `/` separator.
pub open spec fn file_name_of(path: Seq<char>) -> Seq<char> {
    suffix_after_last(path, '/')
}

/// The stem of a file name: the name without its final extension.  A name
/// that begins with a dot and has no other dot, and a name with no dot at
/// all, are their own stem.
pub open spec fn stem_of(name: Seq<char>) -> Seq<char> {
    if name.len() > 0 && name[0] == '.' && !contains_char(
        name.subrange(1, name.len() as int),
        '.',
    ) {
        name
    } else {
        prefix_before_last(name, '.')
    }
}

/// The name of the file a conversion of `path` writes: the stem of the
/// path's file name, followed by a dot and the target format's extension.
pub open spec fn output_name_spec(path: Seq<char>, format: ImageFormat) -> Seq<char> {
    stem_of(file_name_of(path)) + "."@ + format.extension_spec()
}

proof fn lemma_prefix_before_last(s: Seq<char>, c: char, j: int)
    requires
        1 <= j <= s.len(),
        s[j - 1] == c,
        forall|k: int| j <= k < s.len() ==> s[k] != c,
    ensures
        prefix_before_last(s, c) == s.subrange(0, j - 1),
    decreases s.len(),
{
    if j == s.len() {
        assert(s.last() == c);
        assert(s.drop_last() =~= s.subrange(0, j - 1));
    } else {
        assert(s.last() != c);
        assert(s.drop_last()[j - 1] == c);
        assert(contains_char(s.drop_last(), c));
        assert forall|k: int| j <= k < s.drop_last().len() implies s.drop_last()[k] != c by {
            assert(s.drop_last()[k] == s[k]);
        }
        lemma_prefix_before_last(s.drop_last(), c, j);
        assert(s.drop_last().subrange(0, j - 1) =~= s.subrange(0, j - 1));
    }
}

/// The file name a conversion of the path `input` to `format` writes inside
/// the output directory: the file name's stem plus the format's extension.
/// `None` when the path has no file name (it is empty or ends in `/`).
pub fn output_file_name(input: &str, format: ImageFormat) -> (r: Option<String>)
    ensures
        (r is None) <==> file_name_of(input@).len() == 0,
        (r matches Some(name) ==> name@ == output_name_spec(input@, format)),
{
    let len: usize = input.unicode_len();
    proof {
        assert(input@.subrange(0, len as int) =~= input@);
        assert(suffix_after_last(input@, '/') + input@.subrange(len as int, len as int)
            =~= suffix_after_last(input@, '/'));
    }
    let mut i: usize = len;
    while i > 0 && input.get_char(i - 1) != '/'
        invariant
            i <= len,
            len == input@.len(),
            file_name_of(input@) == suffix_after_last(input@.subrange(0, i as int), '/')
                + input@.subrange(i as int, len as int),
        decreases i,
    {
        proof {
            let s0 = input@.subrange(0, i as int);
            assert(s0.last() == input@[i as int - 1]);
            assert(s0.drop_last() =~= input@.subrange(0, i as int - 1));
            assert(suffix_after_last(s0.drop_last(), '/').push(s0.last()) + input@.subrange(
                i as int,
                len as int,
            ) =~= suffix_after_last(input@.subrange(0, i as int - 1), '/') + input@.subrange(
                i as int - 1,
                len as int,
            ));
        }
        i = i - 1;
    }
    proof {
        if i == 0 {
            assert(suffix_after_last(input@.subrange(0, 0), '/') =~= Seq::<char>::empty());
        } else {
            assert(input@.subrange(0, i as int).last() == '/');
        }
        assert(file_name_of(input@) =~= input@.subrange(i as int, len as int));
    }
    if i == len {
        return None;
    }
    let name = input.substring_char(i, len);
    let nlen: usize = len - i;
    let mut j: usize = nlen;
    while j > 0 && name.get_char(j - 1) != '.'
        invariant
            j <= nlen,
            nlen == name@.len(),
            forall|k: int| j <= k < nlen ==> name@[k] != '.',
        decreases j,
    {
        j = j - 1;
    }
    let stem: &str = if j == 0 {
        proof {
            assert(!contains_char(name@, '.'));
            assert(!contains_char(name@.drop_last(), '.')) by {
                if contains_char(name@.drop_last(), '.') {
                    let w = choose|w: int|
                        0 <= w < name@.drop_last().len() && name@.drop_last()[w] == '.';
                    assert(name@[w] == '.');
                }
            }
            assert(stem_of(name@) == name@);
        }
        name
    } else if j == 1 {
        proof {
            assert(name@[0] == '.');
            assert(!contains_char(name@.subrange(1, nlen as int), '.')) by {
                if contains_char(name@.subrange(1, nlen as int), '.') {
                    let w = choose|w: int|
                        0 <= w < name@.subrange(1, nlen as int).len() && name@.subrange(
                            1,
                            nlen as int,
                        )[w] == '.';
                    assert(name@[w + 1] == '.');
                }
            }
            assert(stem_of(name@) == name@);
        }
        name
    } else {
        proof {
            assert(name@[j - 1] == '.');
            if name@.len() > 0 && name@[0] == '.' {
                assert(name@.subrange(1, nlen as int)[j - 2] == '.');
                assert(contains_char(name@.subrange(1, nlen as int), '.'));
            }
            lemma_prefix_before_last(name@, '.', j as int);
            assert(stem_of(name@) == name@.subrange(0, j - 1));
        }
        name.substring_char(0, j - 1)
    };
    let mut out = String::from_str(stem);
    out.append(".");
    out.append(format.extension());
    proof {
        assert(out@ =~= output_name_spec(input@, format));
    }
    Some(out)
}

} // verus!
