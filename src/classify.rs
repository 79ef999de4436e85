//! Deciding, from a file's name and the first bytes of its content, whether
//! the file is left out of the document.

use vstd::prelude::*;

verus! {

/// How many leading bytes of a file are inspected for a zero byte.
pub const PROBE_LEN: usize = 512;

/// Some byte among the first `PROBE_LEN` bytes of `bytes` is zero.
pub open spec fn has_zero_in_probe(bytes: Seq<u8>) -> bool {
    exists|i: int| 0 <= i < bytes.len() && i < PROBE_LEN && #[trigger] bytes[i] == 0
}

/// Index of the last `'.'` strictly before position `k`, or -1 if there is none.
pub open spec fn last_dot_before(name: Seq<char>, k: int) -> int
    decreases k,
{
    if k <= 0 {
        -1
    } else if name[k - 1] == '.' {
        k - 1
    } else {
        last_dot_before(name, k - 1)
    }
}

/// The extension of a file name: the text after its last dot, provided that
/// dot is not the first character. The name `..` has none.
pub open spec fn extension_of(name: Seq<char>) -> Option<Seq<char>> {
    let i = last_dot_before(name, name.len() as int);
    if i <= 0 || name == seq!['.', '.'] {
        None
    } else {
        Some(name.subrange(i + 1, name.len() as int))
    }
}

/// The lower-cased extensions that mark an image file.
pub open spec fn is_image_ext(e: Seq<char>) -> bool {
    e == seq!['j', 'p', 'g'] || e == seq!['j', 'p', 'e', 'g'] || e == seq!['p', 'n', 'g']
        || e == seq!['g', 'i', 'f'] || e == seq!['b', 'm', 'p'] || e == seq!['t', 'i', 'f', 'f']
        || e == seq!['w', 'e', 'b', 'p'] || e == seq!['s', 'v', 'g']
}

/// What `str::to_lowercase` returns for a text.
pub uninterp spec fn lower_of(s: Seq<char>) -> Seq<char>;

/// A file name whose lower-cased extension is one of the image extensions.
pub open spec fn image_name(name: Seq<char>) -> bool {
    match extension_of(name) {
        Some(e) => is_image_ext(lower_of(e)),
        None => false,
    }
}

/// Relies on `str::to_lowercase`: its result is a function of the text alone.
#[verifier::external_body]
fn lowercase(s: &str) -> (r: String)
    ensures
        r@ == lower_of(s@),
{
    s.to_lowercase()
}

/// Whether some byte among the first `PROBE_LEN` bytes is zero: the mark
/// of a binary file.
pub fn is_binary_content(bytes: &[u8]) -> (r: bool)
    ensures
        r == has_zero_in_probe(bytes@),
{
    let n: usize = if bytes.len() < PROBE_LEN { bytes.len() } else { PROBE_LEN };
    let mut i: usize = 0;
    while i < n
        invariant
            n <= bytes@.len(),
            n <= PROBE_LEN,
            n == bytes@.len() || n == PROBE_LEN,
            i <= n,
            forall|j: int| 0 <= j < i ==> bytes@[j] != 0,
        decreases n - i,
    {
        if bytes[i] == 0 {
            return true;
        }
        i = i + 1;
    }
    false
}

/// The extension of a file name, as `extension_of` defines it.
pub fn file_extension(name: &str) -> (r: Option<String>)
    ensures
        match extension_of(name@) {
            Some(e) => r is Some && r->Some_0@ == e,
            None => r is None,
        },
{
    let len = name.unicode_len();
    let mut k: usize = len;
    while k > 0 && name.get_char(k - 1) != '.'
        invariant
            len == name@.len(),
            k <= len,
            last_dot_before(name@, len as int) == last_dot_before(name@, k as int),
        decreases k,
    {
        k = k - 1;
    }
    // `k - 1` is now the position of the last dot, if there is one.
    if k <= 1 {
        return None;
    }
    if len == 2 && name.get_char(0) == '.' && name.get_char(1) == '.' {
        assert(name@ == seq!['.', '.']);
        return None;
    }
    assert(name@ != seq!['.', '.']) by {
        if name@ == seq!['.', '.'] {
            assert(name@[0] == '.' && name@[1] == '.');
        }
    }
    let ext = name.substring_char(k, len);
    Some(String::from_str(ext))
}

/// Whether a lower-cased extension is one of the image extensions.
pub fn is_image_extension(lower_ext: &str) -> (r: bool)
    ensures
        r == is_image_ext(lower_ext@),
{
    let e = lower_ext;
    let n = e.unicode_len();
    if n == 3 {
        let (a, b, c) = (e.get_char(0), e.get_char(1), e.get_char(2));
        let r = (a == 'j' && b == 'p' && c == 'g') || (a == 'p' && b == 'n' && c == 'g')
            || (a == 'g' && b == 'i' && c == 'f') || (a == 'b' && b == 'm' && c == 'p')
            || (a == 's' && b == 'v' && c == 'g');
        assert(r == is_image_ext(e@)) by {
            if r {
                assert(e@ =~= seq![a, b, c]);
            }
        }
        r
    } else if n == 4 {
        let (a, b, c, d) = (e.get_char(0), e.get_char(1), e.get_char(2), e.get_char(3));
        let r = (a == 'j' && b == 'p' && c == 'e' && d == 'g')
            || (a == 't' && b == 'i' && c == 'f' && d == 'f')
            || (a == 'w' && b == 'e' && c == 'b' && d == 'p');
        assert(r == is_image_ext(e@)) by {
            if r {
                assert(e@ =~= seq![a, b, c, d]);
            }
        }
        r
    } else {
        false
    }
}

/// Whether a file name marks an image: its extension, lower-cased, is one
/// of the image extensions. A name without an extension is never an image.
pub fn is_image_file(name: &str) -> (r: bool)
    ensures
        r == image_name(name@),
{
    match file_extension(name) {
        Some(ext) => {
            let lower = lowercase(ext.as_str());
            is_image_extension(lower.as_str())
        },
        None => false,
    }
}

/// Whether a file is left out of the document: its first bytes hold a zero
/// byte, or its name marks an image.
pub fn should_skip_file(name: &str, probe: &[u8]) -> (r: bool)
    ensures
        r == (has_zero_in_probe(probe@) || image_name(name@)),
{
    is_binary_content(probe) || is_image_file(name)
}

} // verus!
