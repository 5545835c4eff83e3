//! Properties of which schemes and hosts name Gofile content.

use vstd::prelude::*;

use crate::laws::{lemma_first_scheme_sep_is, lemma_no_char, lemma_share_url_path};
use crate::text::{eq_ignore_ascii_case, is_first_char, lemma_first_char_is};
use crate::url_matcher::{
    authority_part, gofile_host_name, gofile_path, http_word, https_word, www_gofile_host_name, host_of, is_first_scheme_sep, is_gofile_host, is_web_scheme,
    normalized_path, path_part, scheme_sep_at, share_path_prefix, share_url_prefix, url_ids,
    url_kind, without_userinfo,
};

verus! {

proof fn lemma_web_url_path(s: Seq<char>, h: Seq<char>, t: Seq<char>)
    requires
        is_web_scheme(s),
        forall|i: int| 0 <= i < s.len() ==> #[trigger] s[i] != ':',
        is_gofile_host(h),
        h.len() > 0,
        h[0] != '[',
        forall|i: int|
            0 <= i < h.len() ==> #[trigger] h[i] != '/' && h[i] != '@' && h[i] != ':',
    ensures
        gofile_path(s + seq![':', '/', '/'] + h + share_path_prefix() + t) == Some(
            normalized_path(share_path_prefix() + t),
        ),
{
    let n = s.len() as int;
    let u = s + seq![':', '/', '/'] + h + share_path_prefix() + t;
    assert(u[n] == ':' && u[n + 1] == '/' && u[n + 2] == '/');
    assert(scheme_sep_at(u, n));
    assert forall|j: int| 0 <= j < n implies !scheme_sep_at(u, j) by {
        assert(u[j] == s[j]);
    }
    assert(is_first_scheme_sep(u, n));
    lemma_first_scheme_sep_is(u, n);
    assert(u.take(n) =~= s);
    let rest = u.skip(n + 3);
    assert(rest =~= h + share_path_prefix() + t);
    assert forall|j: int| 0 <= j < h.len() implies rest[j] != '/' by {
        assert(rest[j] == h[j]);
    }
    assert(rest[h.len() as int] == '/');
    assert(is_first_char(rest, '/', h.len() as int));
    lemma_first_char_is(rest, '/', h.len() as int);
    assert(authority_part(rest) =~= h);
    assert(path_part(rest) =~= share_path_prefix() + t);
    lemma_no_char(h, '@');
    assert(without_userinfo(h) == h);
    lemma_no_char(h, ':');
    assert(host_of(h) == Some(h));
}

proof fn lemma_scheme_variant(s: Seq<char>)
    requires
        (s.len() == 4 && forall|i: int|
            0 <= i < 4 ==> #[trigger] s[i] == "http"@[i] || s[i] == "HTTP"@[i]) || (s.len() == 5
            && forall|i: int| 0 <= i < 5 ==> #[trigger] s[i] == "https"@[i] || s[i] == "HTTPS"@[i]),
    ensures
        is_web_scheme(s),
        forall|i: int| 0 <= i < s.len() ==> #[trigger] s[i] != ':',
{
    reveal_strlit("http");
    reveal_strlit("HTTP");
    reveal_strlit("https");
    reveal_strlit("HTTPS");
    if s.len() == 4 {
        assert(eq_ignore_ascii_case(s, http_word()));
    } else {
        assert(eq_ignore_ascii_case(s, https_word()));
    }
}

proof fn lemma_host_variant(h: Seq<char>)
    requires
        (h.len() == 9 && forall|i: int|
            0 <= i < 9 ==> #[trigger] h[i] == "gofile.io"@[i] || h[i] == "GOFILE.IO"@[i]) || (
        h.len() == 13 && forall|i: int|
            0 <= i < 13 ==> #[trigger] h[i] == "www.gofile.io"@[i] || h[i] == "WWW.GOFILE.IO"@[i]),
    ensures
        is_gofile_host(h),
        h.len() > 0,
        h[0] != '[',
        forall|i: int|
            0 <= i < h.len() ==> #[trigger] h[i] != '/' && h[i] != '@' && h[i] != ':',
{
    reveal_strlit("gofile.io");
    reveal_strlit("GOFILE.IO");
    reveal_strlit("www.gofile.io");
    reveal_strlit("WWW.GOFILE.IO");
    if h.len() == 9 {
        assert(h[0] == 'g' || h[0] == 'G');
        assert(eq_ignore_ascii_case(h, gofile_host_name()));
    } else {
        assert(h[0] == 'w' || h[0] == 'W');
        assert(eq_ignore_ascii_case(h, www_gofile_host_name()));
    }
}

/// What a URL names does not depend on its scheme or host, as long as the
/// scheme is `http` or `https` and the host `gofile.io` or `www.gofile.io`,
/// each in any mix of ASCII case: `<scheme>://<host>/d/<rest>` names what
/// `https://gofile.io/d/<rest>` names.
pub proof fn lemma_scheme_and_host_variants(s: Seq<char>, h: Seq<char>, t: Seq<char>)
    requires
        (s.len() == 4 && forall|i: int|
            0 <= i < 4 ==> #[trigger] s[i] == "http"@[i] || s[i] == "HTTP"@[i]) || (s.len() == 5
            && forall|i: int| 0 <= i < 5 ==> #[trigger] s[i] == "https"@[i] || s[i] == "HTTPS"@[i]),
        (h.len() == 9 && forall|i: int|
            0 <= i < 9 ==> #[trigger] h[i] == "gofile.io"@[i] || h[i] == "GOFILE.IO"@[i]) || (
        h.len() == 13 && forall|i: int|
            0 <= i < 13 ==> #[trigger] h[i] == "www.gofile.io"@[i] || h[i] == "WWW.GOFILE.IO"@[i]),
    ensures
        url_ids(s + "://"@ + h + "/d/"@ + t) == url_ids("https://gofile.io/d/"@ + t),
        url_kind(s + "://"@ + h + "/d/"@ + t) == url_kind("https://gofile.io/d/"@ + t),
{
    lemma_scheme_variant(s);
    lemma_host_variant(h);
    let u1 = s + "://"@ + h + "/d/"@ + t;
    let u2 = "https://gofile.io/d/"@ + t;
    lemma_literal_pieces();
    assert(u1 =~= s + seq![':', '/', '/'] + h + share_path_prefix() + t);
    assert(u2 =~= share_url_prefix() + t);
    lemma_web_url_path(s, h, t);
    lemma_share_url_path(t);
    assert(gofile_path(u1) == gofile_path(u2));
}

proof fn lemma_literal_pieces()
    ensures
        "://"@ == seq![':', '/', '/'],
        "/d/"@ == share_path_prefix(),
        "https://gofile.io/d/"@ == share_url_prefix(),
{
    reveal_strlit("://");
    reveal_strlit("/d/");
    reveal_strlit("https://gofile.io/d/");
    assert("://"@ =~= seq![':', '/', '/']);
    assert("/d/"@ =~= share_path_prefix());
    assert("https://gofile.io/d/"@ =~= share_url_prefix());
}

} // verus!
