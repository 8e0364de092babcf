//! Finding an application's icon on the Iconify service: the search and
//! download addresses, and the queries tried when a name finds nothing. The
//! requests themselves are the caller's.
use vstd::prelude::*;
use vstd::utf8::encode_utf8;

use crate::text::{chars_of, concat, split_words, string_of, words};

verus! {

/// The address of the Iconify service.
pub open spec fn iconify_api() -> Seq<char> {
    "https://api.iconify.design"@
}

/// The icon searched for when neither a name nor its first word finds one.
pub const GENERIC_ICON_QUERY: &'static str = "fluent:app-generic-48-filled";

/// Bytes that percent-encoding leaves as they are: ASCII letters, digits
/// and `-`, `.`, `_`, `~`.
pub open spec fn url_safe(b: u8) -> bool {
    ||| 48 <= b <= 57
    ||| 65 <= b <= 90
    ||| 97 <= b <= 122
    ||| b == 45
    ||| b == 46
    ||| b == 95
    ||| b == 126
}

/// An upper-case hexadecimal digit.
pub open spec fn hex_digit(d: int) -> char {
    if d < 10 {
        ('0' as int + d) as char
    } else {
        ('A' as int + d - 10) as char
    }
}

/// Percent-encoding of bytes: each byte that is not left as it is written
/// as `%` and two upper-case hexadecimal digits.
pub open spec fn url_encode_bytes(b: Seq<u8>) -> Seq<char>
    decreases b.len(),
{
    if b.len() == 0 {
        seq![]
    } else {
        let prev = url_encode_bytes(b.drop_last());
        let c = b.last();
        if url_safe(c) {
            prev.push(c as char)
        } else {
            prev + seq!['%', hex_digit(c as int / 16), hex_digit(c as int % 16)]
        }
    }
}

/// `urlencoding::encode`: the text's UTF-8 bytes percent-encoded, every
/// byte but ASCII letters, digits and `-`, `.`, `_`, `~` written as `%XX`.
#[verifier::external_body]
fn url_encode(s: &str) -> (r: String)
    ensures
        r@ == url_encode_bytes(encode_utf8(s@)),
{
    urlencoding::encode(s).into_owned()
}

/// What `str::to_lowercase` gives for a text (Unicode lower case).
pub uninterp spec fn lowercased(s: Seq<char>) -> Seq<char>;

/// `str::to_lowercase`. The contract names the result `lowercased` of the
/// text; what Unicode lower case maps each character to is not stated.
#[verifier::external_body]
fn to_lowercase(s: &str) -> (r: String)
    ensures
        r@ == lowercased(s@),
{
    s.to_lowercase()
}

/// The address that searches Iconify for `query`, at most five results.
pub open spec fn search_url_for(query: Seq<char>) -> Seq<char> {
    iconify_api() + "/search?query="@ + url_encode_bytes(encode_utf8(query)) + "&limit=5"@
}

pub fn iconify_search_url(query: &str) -> (r: String)
    ensures
        r@ == search_url_for(query@),
{
    proof {
        reveal_strlit("https://api.iconify.design");
        reveal_strlit("/search?query=");
        reveal_strlit("&limit=5");
    }
    let a = concat(&chars_of("https://api.iconify.design"), &chars_of("/search?query="));
    let encoded = url_encode(query);
    let b = concat(&a, &chars_of(encoded.as_str()));
    let r = concat(&b, &chars_of("&limit=5"));
    string_of(&r)
}

/// An icon name with its set and name parted by `/` in place of `:`.
pub open spec fn icon_path(name: Seq<char>) -> Seq<char> {
    name.map_values(|c: char| if c == ':' { '/' } else { c })
}

/// The address of the icon `name` as a 256 by 256 SVG.
pub open spec fn icon_url_for(name: Seq<char>) -> Seq<char> {
    iconify_api() + "/"@ + icon_path(name) + ".svg?width=256&height=256"@
}

/// The address of the first icon a search found, given the search's
/// results in order (each a name, or none where the result was not text,
/// which is taken as the empty name); none where it found nothing.
pub fn iconify_icon_url(icons: &Vec<Option<String>>) -> (r: Option<String>)
    ensures
        r is None <==> icons@.len() == 0,
        r matches Some(u) ==> u@ == icon_url_for(
            match icons@[0] {
                Some(n) => n@,
                None => Seq::<char>::empty(),
            },
        ),
{
    if icons.len() == 0 {
        return None;
    }
    let name: Vec<char> = match &icons[0] {
        Some(n) => chars_of(n.as_str()),
        None => Vec::new(),
    };
    let ghost nv = name@;
    let mut path: Vec<char> = Vec::new();
    let mut i: usize = 0;
    while i < name.len()
        invariant
            i <= name.len(),
            nv == name@,
            path@ == icon_path(nv.take(i as int)),
        decreases name.len() - i,
    {
        let c = name[i];
        path.push(if c == ':' { '/' } else { c });
        i += 1;
        assert(path@ =~= icon_path(nv.take(i as int)));
    }
    assert(nv.take(name.len() as int) =~= nv);
    proof {
        reveal_strlit("https://api.iconify.design");
        reveal_strlit("/");
        reveal_strlit(".svg?width=256&height=256");
    }
    let a = concat(&chars_of("https://api.iconify.design"), &chars_of("/"));
    let b = concat(&a, &path);
    Some(string_of(&concat(&b, &chars_of(".svg?width=256&height=256"))))
}

/// The key an application's icon is cached under: its name in lower case.
pub fn icon_cache_key(app_name: &str) -> (r: String)
    ensures
        r@ == lowercased(app_name@),
{
    to_lowercase(app_name)
}

/// The first word of a text, or the whole text where it has none.
pub open spec fn first_word_or_all(s: Seq<char>) -> Seq<char> {
    if words(s).len() > 0 {
        words(s)[0]
    } else {
        s
    }
}

/// The second query tried for an application whose name found no icon: the
/// first word of its name in lower case, unless that is the name itself.
pub fn fallback_icon_query(app_name: &str) -> (r: Option<String>)
    ensures
        ({
            let w = first_word_or_all(lowercased(app_name@));
            match r {
                Some(q) => q@ == w && w != app_name@,
                None => w == app_name@,
            }
        }),
{
    let lower = to_lowercase(app_name);
    let lc = chars_of(lower.as_str());
    let ws = split_words(&lc);
    let first: Vec<char> = if ws.len() > 0 {
        assert(ws@.map_values(|l: Vec<char>| l@)[0] == ws@[0]@);
        crate::text::slice_of(&ws[0], 0, ws[0].len())
    } else {
        lc
    };
    let orig = chars_of(app_name);
    if crate::text::seq_eq(&first, &orig) {
        None
    } else {
        Some(string_of(&first))
    }
}

} // verus!
