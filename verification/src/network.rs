use vstd::prelude::*;
use crate::text::{
    chars_contain, chars_eq_str, spec_contains, spec_has_char, spec_starts_with, str_chars,
    str_starts_with, string_from,
};

verus! {

/// What the network collaborator can deliver to a tab.
pub enum NetworkResponse {
    Success(usize, String, String),
    Error(usize, String),
    Loading(usize),
    Info(usize, String),
    DownloadProgress(usize, u64, Option<u64>),
    DownloadFinished(usize, String),
}

// ------------------------------------------------------------------
// URL handling rests on the url crate behind the trusted items below;
// every decision made on their results is verified.
// ------------------------------------------------------------------

/// Whether url::Url::parse accepts `s` as an absolute URL.
pub uninterp spec fn url_parse_ok(s: Seq<char>) -> bool;

/// The serialization of `s` parsed as an absolute URL.
pub uninterp spec fn url_normalized(s: Seq<char>) -> Seq<char>;

/// Whether parsing `base` and joining `rel` against it succeeds.
pub uninterp spec fn url_join_ok(base: Seq<char>, rel: Seq<char>) -> bool;

/// The serialization of `rel` joined against `base`.
pub uninterp spec fn url_joined(base: Seq<char>, rel: Seq<char>) -> Seq<char>;

/// The application/x-www-form-urlencoded encoding of one key=value pair.
pub uninterp spec fn form_encoded_pair(key: Seq<char>, value: Seq<char>) -> Seq<char>;

/// The Unicode lowercasing of a string.
pub uninterp spec fn lower_of(s: Seq<char>) -> Seq<char>;

/// Relies on url::Url::parse and its Display impl: parses an absolute
/// URL and serializes it back in normalized form. Both depend on the
/// input string alone.
#[verifier::external_body]
fn url_parse_normalize(s: &str) -> (r: Option<String>)
    ensures
        r is Some <==> url_parse_ok(s@),
        r is Some ==> r->0@ == url_normalized(s@),
{
    match url::Url::parse(s) {
        Ok(u) => Some(u.to_string()),
        Err(_) => None,
    }
}

/// Relies on url::Url::parse, url::Url::join and Display: resolves a
/// (possibly relative) reference against a base URL, handling parent
/// directories and root paths; fails when the base does not parse or
/// the join is invalid. Depends on the two strings alone.
#[verifier::external_body]
fn url_join_normalize(base: &str, rel: &str) -> (r: Option<String>)
    ensures
        r is Some <==> url_join_ok(base@, rel@),
        r is Some ==> r->0@ == url_joined(base@, rel@),
{
    match url::Url::parse(base) {
        Ok(b) => match b.join(rel) {
            Ok(j) => Some(j.to_string()),
            Err(_) => None,
        },
        Err(_) => None,
    }
}

/// Relies on url::form_urlencoded::Serializer::append_pair: encodes one
/// key=value pair in application/x-www-form-urlencoded form, a function
/// of the pair alone.
#[verifier::external_body]
fn form_encode_pair(key: &str, value: &str) -> (r: String)
    ensures
        r@ == form_encoded_pair(key@, value@),
{
    url::form_urlencoded::Serializer::new(String::new()).append_pair(key, value).finish()
}

/// Relies on str::to_lowercase: the Unicode lowercase mapping of the
/// string, a function of its characters alone.
#[verifier::external_body]
fn to_lowercase(s: &str) -> (r: String)
    ensures
        r@ == lower_of(s@),
{
    s.to_lowercase()
}

/// What resolving `target` against `base` yields: an absolute target is
/// normalized and wins; on an internal page (empty base, `about:` pages,
/// the initial `New Tab`) the target stands as given; otherwise the
/// target is joined against the base, falling back to the target when
/// the base does not parse or the join fails.
pub open spec fn spec_resolve_url(base: Seq<char>, target: Seq<char>) -> Seq<char> {
    if url_parse_ok(target) {
        url_normalized(target)
    } else if base.len() == 0 || spec_starts_with(base, "about:"@) || base == "New Tab"@ {
        target
    } else if url_join_ok(base, target) {
        url_joined(base, target)
    } else {
        target
    }
}

/// Resolves a link target against the page's URL.
pub fn resolve_url(base: &str, target: &str) -> (r: String)
    ensures
        r@ == spec_resolve_url(base@, target@),
{
    match url_parse_normalize(target) {
        Some(u) => {
            return u;
        },
        None => {},
    }
    let internal = base.is_empty() || str_starts_with(base, "about:") || crate::text::str_eq(
        base,
        "New Tab",
    );
    if internal {
        return string_from(target);
    }
    match url_join_normalize(base, target) {
        Some(u) => u,
        None => string_from(target),
    }
}

/// What submitting the address bar requests: an explicit `http(s)` URL
/// stands as typed; something with a dot and no space is treated as a
/// host, behind `http` for an `.i2p` address and `https` otherwise; and
/// anything else becomes a search query.
pub open spec fn spec_normalize_target(s: Seq<char>) -> Seq<char> {
    if spec_starts_with(s, "http://"@) || spec_starts_with(s, "https://"@) {
        s
    } else if spec_has_char(s, '.') && !spec_has_char(s, ' ') {
        if crate::text::spec_ends_with(s, ".i2p"@) {
            "http://"@ + s
        } else {
            "https://"@ + s
        }
    } else {
        "https://search.marginalia.nu/search?"@ + form_encoded_pair("query"@, s)
    }
}

/// Normalizes what the user typed in the address bar into a URL to fetch.
pub fn normalize_target_url(input: &str) -> (r: String)
    ensures
        r@ == spec_normalize_target(input@),
{
    if str_starts_with(input, "http://") || str_starts_with(input, "https://") {
        return string_from(input);
    }
    let chars = str_chars(input);
    let has_dot = crate::text::chars_have_char(chars.as_slice(), '.');
    let has_space = crate::text::chars_have_char(chars.as_slice(), ' ');
    if has_dot && !has_space {
        let mut suffix: Vec<char> = Vec::new();
        suffix.push('.');
        suffix.push('i');
        suffix.push('2');
        suffix.push('p');
        proof {
            reveal_strlit(".i2p");
            assert(suffix@ =~= ".i2p"@);
        }
        let mut r = if crate::text::chars_end_with(chars.as_slice(), suffix.as_slice()) {
            string_from("http://")
        } else {
            string_from("https://")
        };
        r.append(input);
        r
    } else {
        let mut r = string_from("https://search.marginalia.nu/search?");
        let q = form_encode_pair("query", input);
        r.append(q.as_str());
        r
    }
}

// ------------------------------------------------------------------
// Download detection.
// ------------------------------------------------------------------

/// The index of the last `.` in `u`, or -1 when there is none.
pub open spec fn rfind_dot(u: Seq<char>) -> int
    decreases u.len(),
{
    if u.len() == 0 {
        -1
    } else if u.last() == '.' {
        u.len() - 1
    } else {
        rfind_dot(u.drop_last())
    }
}

/// How many characters precede the first `?` of `u` (all of `u` when
/// there is none).
pub open spec fn before_query(u: Seq<char>) -> nat
    decreases u.len(),
{
    if u.len() == 0 || u[0] == '?' {
        0
    } else {
        1 + before_query(u.drop_first())
    }
}

/// The extension a URL ends with: what stands after its last dot, up to
/// a query string.
pub open spec fn spec_ext(u: Seq<char>) -> Seq<char> {
    let rest = u.skip(rfind_dot(u) + 1);
    rest.take(before_query(rest) as int)
}

/// The file extensions a click downloads rather than renders.
pub open spec fn is_binary_ext(e: Seq<char>) -> bool {
    ||| e == "zip"@
    ||| e == "pdf"@
    ||| e == "exe"@
    ||| e == "dmg"@
    ||| e == "pkg"@
    ||| e == "deb"@
    ||| e == "iso"@
    ||| e == "mp4"@
    ||| e == "mp3"@
    ||| e == "png"@
    ||| e == "jpg"@
    ||| e == "jpeg"@
    ||| e == "gif"@
    ||| e == "docx"@
    ||| e == "xlsx"@
    ||| e == "tar"@
    ||| e == "gz"@
}

/// The dynamic download paths recognized without an extension.
pub open spec fn has_download_path(u: Seq<char>) -> bool {
    ||| spec_contains(u, "/download/"@)
    ||| spec_contains(u, "/files/"@)
    ||| spec_contains(u, "/assets/"@)
    ||| spec_contains(u, "/attachments/"@)
}

/// Whether a lowercased URL likely points at a downloadable file: a
/// known binary extension after its last dot (ignoring the query
/// string), or a common download path.
pub open spec fn spec_downloadable(u: Seq<char>) -> bool {
    ||| (rfind_dot(u) >= 0 && is_binary_ext(spec_ext(u)))
    ||| has_download_path(u)
}

/// Finds the last `.` of the slice.
fn find_last_dot(u: &[char]) -> (r: Option<usize>)
    ensures
        r is Some ==> rfind_dot(u@) == r->0 && r->0 < u@.len(),
        r is None ==> rfind_dot(u@) == -1,
{
    let n = u.len();
    let mut i: usize = n;
    proof {
        assert(u@.take(n as int) =~= u@);
    }
    while i > 0
        invariant
            i <= n,
            n == u@.len(),
            rfind_dot(u@) == rfind_dot(u@.take(i as int)),
        decreases i,
    {
        proof {
            assert(u@.take(i as int).last() == u@[i - 1]);
            assert(u@.take(i as int).drop_last() =~= u@.take(i - 1));
        }
        if u[i - 1] == '.' {
            return Some(i - 1);
        }
        i = i - 1;
    }
    proof {
        assert(u@.take(0) =~= Seq::<char>::empty());
    }
    None
}

/// Counts the characters before the first `?` from `from` on.
fn scan_before_query(u: &[char], from: usize) -> (r: usize)
    requires
        from <= u@.len(),
    ensures
        r == before_query(u@.skip(from as int)),
        from + r <= u@.len(),
{
    let n = u.len();
    let mut i: usize = from;
    loop
        invariant_except_break
            from <= i <= n,
            n == u@.len(),
            before_query(u@.skip(from as int)) == (i - from) + before_query(u@.skip(i as int)),
        ensures
            from <= i <= n,
            before_query(u@.skip(from as int)) == i - from,
        decreases n - i,
    {
        if i == n {
            proof {
                assert(u@.skip(i as int).len() == 0);
            }
            break ;
        }
        proof {
            assert(u@.skip(i as int)[0] == u@[i as int]);
        }
        if u[i] == '?' {
            break ;
        }
        proof {
            assert(u@.skip(i as int).drop_first() =~= u@.skip(i + 1));
        }
        i = i + 1;
    }
    i - from
}

/// Whether a URL likely points at a downloadable file, judged on its
/// lowercase form: a known binary extension, or a download-style path.
pub fn is_downloadable_file(url: &str) -> (r: bool)
    ensures
        r == spec_downloadable(lower_of(url@)),
{
    let lowered = to_lowercase(url);
    let u = str_chars(lowered.as_str());
    let n = u.len();
    match find_last_dot(u.as_slice()) {
        Some(dot) => {
            proof {
                assert(dot < n);
            }
            let e0 = scan_before_query(u.as_slice(), dot + 1);
            let ext = vstd::slice::slice_subrange(u.as_slice(), dot + 1, dot + 1 + e0);
            proof {
                assert(u@.skip(dot + 1).take(before_query(u@.skip(dot + 1)) as int)
                    =~= u@.subrange(dot + 1, dot + 1 + e0));
            }
            let is_bin = chars_eq_str(ext, "zip") || chars_eq_str(ext, "pdf") || chars_eq_str(
                ext,
                "exe",
            ) || chars_eq_str(ext, "dmg") || chars_eq_str(ext, "pkg") || chars_eq_str(ext, "deb")
                || chars_eq_str(ext, "iso") || chars_eq_str(ext, "mp4") || chars_eq_str(ext, "mp3")
                || chars_eq_str(ext, "png") || chars_eq_str(ext, "jpg") || chars_eq_str(
                ext,
                "jpeg",
            ) || chars_eq_str(ext, "gif") || chars_eq_str(ext, "docx") || chars_eq_str(ext, "xlsx")
                || chars_eq_str(ext, "tar") || chars_eq_str(ext, "gz");
            if is_bin {
                return true;
            }
        },
        None => {},
    }
    let p1 = str_chars("/download/");
    let p2 = str_chars("/files/");
    let p3 = str_chars("/assets/");
    let p4 = str_chars("/attachments/");
    chars_contain(u.as_slice(), p1.as_slice()) || chars_contain(u.as_slice(), p2.as_slice())
        || chars_contain(u.as_slice(), p3.as_slice()) || chars_contain(
        u.as_slice(),
        p4.as_slice(),
    )
}

} // verus!
