use vstd::prelude::*;

use crate::text::same_text;

verus! {

/// What `str::to_lowercase` returns for a string (Unicode lowercase mapping).
pub uninterp spec fn lowercase(s: Seq<char>) -> Seq<char>;

/// Calls `str::to_lowercase`; the result is taken to be `lowercase` of the
/// argument, whose Unicode mapping is not spelled out here. On ASCII text the
/// Unicode lowercase mapping is the ASCII one: `A`-`Z` become `a`-`z`, every
/// other character stays.
#[verifier::external_body]
fn to_lowercase(s: &str) -> (r: String)
    ensures
        r@ == lowercase(s@),
        is_ascii_text(s@) ==> r@ == ascii_lowercase(s@),
{
    s.to_lowercase()
}

/// Whether every character of a text is ASCII.
pub open spec fn is_ascii_text(s: Seq<char>) -> bool {
    forall|i: int| 0 <= i < s.len() ==> (#[trigger] s[i] as u32) < 128
}

/// The ASCII lowercase of a character: `A`-`Z` become `a`-`z`.
pub open spec fn ascii_lower_char(c: char) -> char {
    if 'A' <= c && c <= 'Z' {
        ((c as u32) + 32) as char
    } else {
        c
    }
}

/// The ASCII uppercase of a character: `a`-`z` become `A`-`Z`.
pub open spec fn ascii_upper_char(c: char) -> char {
    if 'a' <= c && c <= 'z' {
        ((c as u32) - 32) as char
    } else {
        c
    }
}

/// A text with its ASCII letters lowercased.
pub open spec fn ascii_lowercase(s: Seq<char>) -> Seq<char> {
    s.map_values(|c: char| ascii_lower_char(c))
}

/// A text with its ASCII letters uppercased.
pub open spec fn ascii_uppercase(s: Seq<char>) -> Seq<char> {
    s.map_values(|c: char| ascii_upper_char(c))
}

/// The text after the last `.` of a path, or the whole path when it holds no `.`
/// (the first item of `rsplit('.')`).
pub open spec fn after_last_dot(s: Seq<char>) -> Seq<char>
    decreases s.len(),
{
    if s.len() == 0 {
        s
    } else if s.last() == '.' {
        Seq::empty()
    } else {
        after_last_dot(s.drop_last()).push(s.last())
    }
}

/// The `Content-Type` served for a (lowercase) file extension.
pub open spec fn content_type_of(ext: Seq<char>) -> Seq<char> {
    if ext == "html"@ {
        "text/html; charset=utf-8"@
    } else if ext == "css"@ {
        "text/css; charset=utf-8"@
    } else if ext == "js"@ {
        "application/javascript; charset=utf-8"@
    } else if ext == "json"@ {
        "application/json; charset=utf-8"@
    } else if ext == "png"@ {
        "image/png"@
    } else if ext == "jpg"@ || ext == "jpeg"@ {
        "image/jpeg"@
    } else if ext == "gif"@ {
        "image/gif"@
    } else if ext == "svg"@ {
        "image/svg+xml"@
    } else if ext == "ico"@ {
        "image/x-icon"@
    } else {
        "text/plain; charset=utf-8"@
    }
}

/// The extension of a file path: the text after its last `.`, or the whole
/// path when it has none.
pub fn file_extension(path: &str) -> (ext: &str)
    ensures
        ext@ == after_last_dot(path@),
{
    let n = path.unicode_len();
    let mut i: usize = n;
    assert(path@.subrange(0, n as int) =~= path@);
    assert(path@.subrange(n as int, n as int) =~= Seq::<char>::empty());
    while i > 0 && path.get_char(i - 1) != '.'
        invariant
            n == path@.len(),
            i <= n,
            after_last_dot(path@) == after_last_dot(path@.subrange(0, i as int)) + path@.subrange(
                i as int,
                n as int,
            ),
        decreases i,
    {
        let ghost pre = path@.subrange(0, i as int);
        assert(pre.drop_last() =~= path@.subrange(0, i - 1));
        assert(path@.subrange(i - 1, n as int) =~= seq![pre.last()] + path@.subrange(
            i as int,
            n as int,
        ));
        i = i - 1;
    }
    let ghost pre = path@.subrange(0, i as int);
    assert(after_last_dot(pre) =~= Seq::<char>::empty()) by {
        if i > 0 {
            assert(pre.last() == path@[i - 1]);
        }
    }
    assert(after_last_dot(path@) =~= path@.subrange(i as int, n as int));
    path.substring_char(i, n)
}

/// The `Content-Type` header value for a lowercase file extension.
pub fn content_type_for_extension(ext: &str) -> (r: &'static str)
    ensures
        r@ == content_type_of(ext@),
{
    if same_text(ext, "html") {
        "text/html; charset=utf-8"
    } else if same_text(ext, "css") {
        "text/css; charset=utf-8"
    } else if same_text(ext, "js") {
        "application/javascript; charset=utf-8"
    } else if same_text(ext, "json") {
        "application/json; charset=utf-8"
    } else if same_text(ext, "png") {
        "image/png"
    } else if same_text(ext, "jpg") || same_text(ext, "jpeg") {
        "image/jpeg"
    } else if same_text(ext, "gif") {
        "image/gif"
    } else if same_text(ext, "svg") {
        "image/svg+xml"
    } else if same_text(ext, "ico") {
        "image/x-icon"
    } else {
        "text/plain; charset=utf-8"
    }
}

/// The `Content-Type` of a static file, chosen by its extension compared
/// without regard to case; unknown extensions are served as plain text.
pub fn get_content_type(file_path: &str) -> (r: &'static str)
    ensures
        r@ == content_type_of(lowercase(after_last_dot(file_path@))),
        is_ascii_text(file_path@) ==> r@ == content_type_of(
            ascii_lowercase(after_last_dot(file_path@)),
        ),
{
    let ext = file_extension(file_path);
    proof {
        lemma_after_last_dot_is_suffix(file_path@);
    }
    let lower = to_lowercase(ext);
    content_type_for_extension(lower.as_str())
}

proof fn lemma_after_last_dot_is_suffix(s: Seq<char>)
    ensures
        is_ascii_text(s) ==> is_ascii_text(after_last_dot(s)),
    decreases s.len(),
{
    if s.len() > 0 && s.last() != '.' {
        lemma_after_last_dot_is_suffix(s.drop_last());
        if is_ascii_text(s) {
            let p = after_last_dot(s.drop_last());
            assert forall|i: int| 0 <= i < p.push(s.last()).len() implies (#[trigger] p.push(
                s.last(),
            )[i] as u32) < 128 by {
                if i < p.len() {
                    assert(is_ascii_text(s.drop_last())) by {
                        assert forall|k: int| 0 <= k < s.drop_last().len() implies (
                        #[trigger] s.drop_last()[k] as u32) < 128 by {
                            assert(s.drop_last()[k] == s[k]);
                        }
                    }
                } else {
                    assert((s[s.len() - 1] as u32) < 128);
                }
            }
        }
    }
}

/// Mapping the characters of a path with a map that keeps `.` and never
/// makes one maps its extension the same way.
proof fn lemma_after_last_dot_map(s: Seq<char>, upper: bool)
    ensures
        after_last_dot(if upper { ascii_uppercase(s) } else { ascii_lowercase(s) }) == (if upper {
            ascii_uppercase(after_last_dot(s))
        } else {
            ascii_lowercase(after_last_dot(s))
        }),
    decreases s.len(),
{
    let m = if upper { ascii_uppercase(s) } else { ascii_lowercase(s) };
    if s.len() == 0 {
        assert(m =~= Seq::<char>::empty());
        assert(ascii_uppercase(s) =~= Seq::<char>::empty());
        assert(ascii_lowercase(s) =~= Seq::<char>::empty());
    } else {
        let t = s.drop_last();
        lemma_after_last_dot_map(t, upper);
        let mt = if upper { ascii_uppercase(t) } else { ascii_lowercase(t) };
        assert(m.drop_last() =~= mt);
        let c = s.last();
        assert(m.last() == (if upper { ascii_upper_char(c) } else { ascii_lower_char(c) }));
        let p = after_last_dot(t);
        if c == '.' {
            assert(after_last_dot(s) == Seq::<char>::empty());
            assert(ascii_uppercase(Seq::<char>::empty()) =~= Seq::<char>::empty());
            assert(ascii_lowercase(Seq::<char>::empty()) =~= Seq::<char>::empty());
        } else {
            assert(after_last_dot(s) == p.push(c));
            assert(ascii_uppercase(p.push(c)) =~= ascii_uppercase(p).push(ascii_upper_char(c)));
            assert(ascii_lowercase(p.push(c)) =~= ascii_lowercase(p).push(ascii_lower_char(c)));
        }
    }
}

/// On ASCII paths the content type does not depend on the case of the path:
/// the path, its lowercase and its uppercase get the same type (the ASCII
/// lowercase and uppercase of an ASCII path are ASCII paths too).
pub proof fn content_type_ignores_ascii_case(path: Seq<char>)
    requires
        is_ascii_text(path),
    ensures
        is_ascii_text(ascii_lowercase(path)),
        is_ascii_text(ascii_uppercase(path)),
        content_type_of(ascii_lowercase(after_last_dot(ascii_lowercase(path)))) == content_type_of(
            ascii_lowercase(after_last_dot(path)),
        ),
        content_type_of(ascii_lowercase(after_last_dot(ascii_uppercase(path)))) == content_type_of(
            ascii_lowercase(after_last_dot(path)),
        ),
{
    assert forall|i: int| 0 <= i < ascii_lowercase(path).len() implies (
    #[trigger] ascii_lowercase(path)[i] as u32) < 128 by {
        assert((path[i] as u32) < 128);
    }
    assert forall|i: int| 0 <= i < ascii_uppercase(path).len() implies (
    #[trigger] ascii_uppercase(path)[i] as u32) < 128 by {
        assert((path[i] as u32) < 128);
    }
    lemma_after_last_dot_map(path, false);
    lemma_after_last_dot_map(path, true);
    let e = after_last_dot(path);
    assert(ascii_lowercase(ascii_lowercase(e)) =~= ascii_lowercase(e));
    assert(ascii_lowercase(ascii_uppercase(e)) =~= ascii_lowercase(e));
}

} // verus!
