//! Properties of how values are written into a request's query string.

use vstd::prelude::*;

use crate::api_client::{create_account_url, encoded_byte, percent_encoded};
use crate::{is_fetch_start, FetchAction, FolderFetch};

verus! {

/// Percent-encoding works byte by byte: the encoding of two byte strings
/// one after the other is the encoding of the first followed by that of the
/// second.
pub proof fn lemma_percent_encoded_concat(a: Seq<u8>, b: Seq<u8>)
    ensures
        percent_encoded(a + b) == percent_encoded(a) + percent_encoded(b),
    decreases b.len(),
{
    if b.len() == 0 {
        assert(a + b =~= a);
        assert(percent_encoded(a) + percent_encoded(b) =~= percent_encoded(a));
    } else {
        assert((a + b).drop_last() =~= a + b.drop_last());
        assert((a + b).last() == b.last());
        lemma_percent_encoded_concat(a, b.drop_last());
        assert(percent_encoded(a + b) =~= percent_encoded(a) + percent_encoded(b));
    }
}

/// A byte of `[A-Za-z0-9_-]` is written as itself; every other byte as `%`
/// followed by its two upper-case hexadecimal digits, high nibble first.
pub proof fn lemma_percent_encoded_byte(b: u8)
    ensures
        (65 <= b <= 90) || (97 <= b <= 122) || (48 <= b <= 57) || b == 45 || b == 95
            ==> percent_encoded(seq![b]) == seq![b as char],
        !((65 <= b <= 90) || (97 <= b <= 122) || (48 <= b <= 57) || b == 45 || b == 95)
            ==> percent_encoded(seq![b]) == seq![
            '%',
            "0123456789ABCDEF"@[(b / 16) as int],
            "0123456789ABCDEF"@[(b % 16) as int],
        ],
{
    reveal_strlit("0123456789ABCDEF");
    let one = seq![b];
    assert(one.drop_last() =~= Seq::<u8>::empty());
    assert(one.last() == b);
    assert(percent_encoded(one.drop_last()) == Seq::<char>::empty());
    assert(percent_encoded(one) == percent_encoded(one.drop_last()) + encoded_byte(b));
    assert(percent_encoded(one) =~= encoded_byte(b));
}


/// A folder lookup starts by asking for a guest token:
/// `GET https://api.gofile.io/createAccount`, with no body, asking for JSON
/// (`Accept: application/json`) under the plugin's `User-Agent`.
pub proof fn lemma_fetch_starts_with_account(folder_id: Seq<char>, s0: FolderFetch, a0: FetchAction)
    requires
        is_fetch_start(folder_id, s0, a0),
    ensures
        a0 matches FetchAction::Send(req) && req.method@ == "GET"@ && req.url@
            == "https://api.gofile.io/createAccount"@ && req.body is None && req.headers@.len() == 2
            && req.headers@[0].0@ == "User-Agent"@ && req.headers@[0].1@
            == "Mozilla/5.0 (Vortex/1.0; +https://vortex-app.com) GofilePlugin/1.0"@
            && req.headers@[1].0@ == "Accept"@ && req.headers@[1].1@ == "application/json"@,
{
    reveal_strlit("https://api.gofile.io");
    reveal_strlit("/createAccount");
    reveal_strlit("https://api.gofile.io/createAccount");
    assert(create_account_url() =~= "https://api.gofile.io/createAccount"@);
}

} // verus!
