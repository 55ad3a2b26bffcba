//! Lookup of bundled UI assets by path.  The asset table itself is
//! supplied by the embedding program; the lookup returns the first
//! entry whose name matches.
use vstd::prelude::*;

use crate::json::str_eq;
use crate::json::str_to_chars;

verus! {

/// One bundled asset: its request path and its contents.
#[derive(Debug)]
pub struct EmbeddedFile {
    pub name: String,
    pub contents: String,
}

impl EmbeddedFile {
    pub fn name(&self) -> (r: &str)
        ensures
            r@ == self.name@,
    {
        self.name.as_str()
    }

    pub fn load(&self) -> (r: &str)
        ensures
            r@ == self.contents@,
    {
        self.contents.as_str()
    }
}

/// The contents of the first file named `name`, if one exists.
pub open spec fn spec_lookup(fs: Seq<EmbeddedFile>, name: Seq<char>) -> Option<Seq<char>>
    decreases fs.len(),
{
    if fs.len() == 0 {
        None
    } else if fs[0].name@ == name {
        Some(fs[0].contents@)
    } else {
        spec_lookup(fs.drop_first(), name)
    }
}

proof fn lemma_lookup_at(fs: Seq<EmbeddedFile>, name: Seq<char>, k: int)
    requires
        0 <= k < fs.len(),
        fs[k].name@ == name,
        forall|j: int| 0 <= j < k ==> (#[trigger] fs[j]).name@ != name,
    ensures
        spec_lookup(fs, name) == Some(fs[k].contents@),
    decreases k,
{
    if k > 0 {
        assert(forall|i: int| 0 <= i < fs.drop_first().len() ==> fs.drop_first()[i] == fs[i + 1]);
        lemma_lookup_at(fs.drop_first(), name, k - 1);
    }
}

proof fn lemma_lookup_none(fs: Seq<EmbeddedFile>, name: Seq<char>)
    requires
        forall|j: int| 0 <= j < fs.len() ==> (#[trigger] fs[j]).name@ != name,
    ensures
        spec_lookup(fs, name) is None,
    decreases fs.len(),
{
    if fs.len() > 0 {
        assert(forall|i: int| 0 <= i < fs.drop_first().len() ==> fs.drop_first()[i] == fs[i + 1]);
        lemma_lookup_none(fs.drop_first(), name);
    }
}

/// Serve the asset named `name` from the table, if it is there.
pub fn load_file(files: &Vec<EmbeddedFile>, name: &str) -> (r: Option<String>)
    ensures
        match r {
            Some(c) => spec_lookup(files@, name@) == Some(c@),
            None => spec_lookup(files@, name@) is None,
        },
{
    let mut i: usize = 0;
    while i < files.len()
        invariant
            i <= files@.len(),
            forall|j: int| 0 <= j < i ==> (#[trigger] files@[j]).name@ != name@,
        decreases files@.len() - i,
    {
        if str_eq(files[i].name.as_str(), name) {
            proof {
                lemma_lookup_at(files@, name@, i as int);
            }
            return Some(files[i].contents.clone());
        }
        i = i + 1;
    }
    proof {
        lemma_lookup_none(files@, name@);
    }
    None
}


// ---------------------------------------------------------------------
// Path validation for assets served from disk
// ---------------------------------------------------------------------

/// The percent-decoding of a request path: a function of the text
/// alone; nothing when the decoded bytes are not valid text.
pub uninterp spec fn percent_decoded(s: Seq<char>) -> Option<Seq<char>>;

/// Relies on urlencoding::decode: replaces percent escapes by their
/// bytes and fails only when the result is not valid text; per its
/// source, a text without a percent sign comes back unchanged.
#[verifier::external_body]
fn percent_decode(s: &str) -> (r: Option<String>)
    ensures
        match r {
            Some(t) => percent_decoded(s@) == Some(t@) && ((forall|i: int|
                0 <= i < s@.len() ==> s@[i] != '%') ==> t@ == s@),
            None => percent_decoded(s@) is None && (exists|i: int|
                0 <= i < s@.len() && s@[i] == '%'),
        },
{
    match urlencoding::decode(s) {
        Ok(t) => Some(t.into_owned()),
        Err(_) => None,
    }
}

/// A decoded path that may be joined onto a base directory: it holds no
/// backslash and no path segment begins with two dots.
pub open spec fn path_ok(s: Seq<char>) -> bool {
    &&& forall|i: int| 0 <= i < s.len() ==> s[i] != '\\'
    &&& forall|j: int|
        0 <= j && j + 1 < s.len() && (j == 0 || s[j - 1] == '/') ==> !(#[trigger] s[j] == '.'
            && s[j + 1] == '.')
}

/// Decode a requested asset path and accept it only when it cannot
/// escape the base directory: the decoded path is returned exactly when
/// decoding succeeds and the path is safe to join.
#[verifier::rlimit(60)]
pub fn validate_path(p: &str) -> (r: Option<String>)
    ensures
        match r {
            Some(d) => percent_decoded(p@) == Some(d@) && path_ok(d@),
            None => percent_decoded(p@) is None || (percent_decoded(p@) matches Some(d)
                && !path_ok(d)),
        },
{
    let decoded = match percent_decode(p) {
        Some(d) => d,
        None => {
            return None;
        },
    };
    let chars = str_to_chars(decoded.as_str());
    let n = chars.len();
    let mut i: usize = 0;
    while i < n
        invariant
            i <= n,
            n == chars@.len(),
            chars@ == decoded@,
            percent_decoded(p@) == Some(decoded@),
            forall|k: int| 0 <= k < i ==> chars@[k] != '\\',
            forall|j: int|
                0 <= j < i && j + 1 < n && (j == 0 || chars@[j - 1] == '/') ==> !(
                #[trigger] chars@[j] == '.' && chars@[j + 1] == '.'),
        decreases n - i,
    {
        if chars[i] == '\\' {
            proof {
                assert(decoded@[i as int] == '\\');
                assert(!path_ok(decoded@));
            }
            return None;
        }
        if i + 1 < n && (i == 0 || chars[i - 1] == '/') && chars[i] == '.' && chars[i + 1] == '.' {
            proof {
                assert(decoded@[i as int] == '.' && decoded@[i + 1] == '.');
                assert(!path_ok(decoded@));
            }
            return None;
        }
        i = i + 1;
    }
    proof {
        assert(path_ok(decoded@));
    }
    Some(decoded)
}

} // verus!
