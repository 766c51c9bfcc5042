//! External-identifier derivation and media-URL construction.

use vstd::prelude::*;
use vstd::string::StringExecFns;

use crate::data::AccountId;
use crate::data::Image;
use crate::data::ImageV;
use crate::data::NearSocialAccountId;

verus! {

/// The character for one decimal digit.
pub open spec fn digit_char(d: int) -> char {
    if d == 0 {
        '0'
    } else if d == 1 {
        '1'
    } else if d == 2 {
        '2'
    } else if d == 3 {
        '3'
    } else if d == 4 {
        '4'
    } else if d == 5 {
        '5'
    } else if d == 6 {
        '6'
    } else if d == 7 {
        '7'
    } else if d == 8 {
        '8'
    } else {
        '9'
    }
}

/// The decimal rendering of a number, most significant digit first.
pub open spec fn spec_dec(n: nat) -> Seq<char>
    decreases n,
{
    if n < 10 {
        seq![digit_char(n as int)]
    } else {
        spec_dec(n / 10) + seq![digit_char((n % 10) as int)]
    }
}

/// The characters of a digit list read back to front (the list stores the
/// least significant digit first).
pub open spec fn rev_chars(d: Seq<u64>) -> Seq<char> {
    Seq::new(d.len(), |j: int| digit_char(d[d.len() - 1 - j] as int))
}

/// A run of zero characters.
pub open spec fn zeros(k: nat) -> Seq<char> {
    Seq::new(k, |i: int| '0')
}

/// The decimal rendering zero-padded on the left to at least 18 digits.
pub open spec fn padded18(n: nat) -> Seq<char> {
    if spec_dec(n).len() >= 18 {
        spec_dec(n)
    } else {
        zeros((18 - spec_dec(n).len()) as nat) + spec_dec(n)
    }
}

/// The sharded storage URL of a media asset: the numeric identifier's
/// first 18 padded digits split into six 3-digit path segments under the
/// fixed storage host and the category prefix, with the stored file name
/// appended.
pub open spec fn spec_image_url(prefix: Seq<char>, account_id: u64, file_name: Seq<char>) -> Seq<
    char,
> {
    let p = padded18(account_id as nat);
    "https://mastodon.near.social/system/accounts/"@ + prefix + "/"@ + p.subrange(0, 3) + "/"@
        + p.subrange(3, 6) + "/"@ + p.subrange(6, 9) + "/"@ + p.subrange(9, 12) + "/"@
        + p.subrange(12, 15) + "/"@ + p.subrange(15, 18) + "/original/"@ + file_name
}

/// A media descriptor is present exactly when all three of its source
/// sub-fields are present.
pub open spec fn media_triple_consistent(
    name: Option<Seq<char>>,
    content_type: Option<Seq<char>>,
    size: Option<u64>,
) -> bool {
    (name is Some <==> content_type is Some) && (name is Some <==> size is Some)
}

/// The media descriptor derived from a consistent source triple: absent
/// when the triple is absent, else the derived URL with the stored
/// content type and size.
pub open spec fn spec_make_image(
    account_id: u64,
    prefix: Seq<char>,
    name: Option<Seq<char>>,
    content_type: Option<Seq<char>>,
    size: Option<u64>,
) -> Option<ImageV> {
    match name {
        None => None,
        Some(file_name) => Some(
            ImageV {
                url: spec_image_url(prefix, account_id, file_name),
                content_type: content_type->0,
                file_size: size->0,
            },
        ),
    }
}

/// The one-character string for a decimal digit.
fn digit_str(d: u64) -> (r: &'static str)
    requires
        d < 10,
    ensures
        r@ =~= seq![digit_char(d as int)],
{
    proof {
        reveal_strlit("0");
        reveal_strlit("1");
        reveal_strlit("2");
        reveal_strlit("3");
        reveal_strlit("4");
        reveal_strlit("5");
        reveal_strlit("6");
        reveal_strlit("7");
        reveal_strlit("8");
        reveal_strlit("9");
    }
    if d == 0 {
        "0"
    } else if d == 1 {
        "1"
    } else if d == 2 {
        "2"
    } else if d == 3 {
        "3"
    } else if d == 4 {
        "4"
    } else if d == 5 {
        "5"
    } else if d == 6 {
        "6"
    } else if d == 7 {
        "7"
    } else if d == 8 {
        "8"
    } else {
        "9"
    }
}

/// The decimal digits of a number, least significant first.
fn dec_digits(n: u64) -> (digs: Vec<u64>)
    ensures
        digs@.len() >= 1,
        forall|j: int| 0 <= j < digs@.len() ==> digs@[j] < 10,
        rev_chars(digs@) == spec_dec(n as nat),
{
    let mut m: u64 = n;
    let mut digs: Vec<u64> = Vec::new();
    digs.push(m % 10);
    proof {
        if n < 10 {
            assert(rev_chars(digs@) =~= seq![digit_char(n as int)]);
            assert(spec_dec(n as nat) =~= Seq::<char>::empty() + rev_chars(digs@));
        } else {
            assert(rev_chars(digs@) =~= seq![digit_char((n % 10) as int)]);
            assert(spec_dec(n as nat) =~= spec_dec((n / 10) as nat) + rev_chars(digs@));
        }
    }
    m = m / 10;
    while m > 0
        invariant
            digs@.len() >= 1,
            forall|j: int| 0 <= j < digs@.len() ==> digs@[j] < 10,
            spec_dec(n as nat) =~= (if m > 0 {
                spec_dec(m as nat)
            } else {
                Seq::<char>::empty()
            }) + rev_chars(digs@),
        decreases m,
    {
        let ghost old_digs = digs@;
        let ghost old_m = m as nat;
        digs.push(m % 10);
        proof {
            assert(rev_chars(digs@) =~= seq![digit_char((old_m % 10) as int)] + rev_chars(
                old_digs,
            ));
            if old_m < 10 {
                assert(spec_dec(old_m) =~= seq![digit_char((old_m % 10) as int)]);
                assert(spec_dec(n as nat) =~= Seq::<char>::empty() + rev_chars(digs@));
            } else {
                assert(spec_dec(old_m) =~= spec_dec(old_m / 10) + seq![digit_char(
                    (old_m % 10) as int,
                )]);
                assert(spec_dec(n as nat) =~= spec_dec(old_m / 10) + rev_chars(digs@));
            }
        }
        m = m / 10;
    }
    proof {
        assert(spec_dec(n as nat) =~= rev_chars(digs@));
    }
    digs
}

/// The character at one position of the padded rendering, read off the
/// digit list.
fn padded_digit(digs: &Vec<u64>, k: usize, Ghost(n): Ghost<nat>) -> (d: u64)
    requires
        rev_chars(digs@) == spec_dec(n),
        forall|j: int| 0 <= j < digs@.len() ==> digs@[j] < 10,
        digs@.len() >= 1,
        k < 18,
    ensures
        d < 10,
        digit_char(d as int) == padded18(n)[k as int],
{
    let len = digs.len();
    proof {
        assert(spec_dec(n).len() == digs@.len());
    }
    if len >= 18 {
        let d = digs[len - 1 - k];
        proof {
            assert(padded18(n)[k as int] == spec_dec(n)[k as int]);
            assert(rev_chars(digs@)[k as int] == digit_char(digs@[len - 1 - k] as int));
        }
        d
    } else if k < 18 - len {
        proof {
            assert(padded18(n)[k as int] == zeros((18 - spec_dec(n).len()) as nat)[k as int]);
            assert(padded18(n)[k as int] == '0');
        }
        0
    } else {
        let kk = k - (18 - len);
        let d = digs[len - 1 - kk];
        proof {
            assert(padded18(n)[k as int] == spec_dec(n)[kk as int]);
            assert(rev_chars(digs@)[kk as int] == digit_char(digs@[len - 1 - kk] as int));
        }
        d
    }
}

/// Appends a slash and one 3-digit path segment of the padded rendering.
fn append_group(s: &mut String, digs: &Vec<u64>, g: usize, Ghost(n): Ghost<nat>)
    requires
        rev_chars(digs@) == spec_dec(n),
        forall|j: int| 0 <= j < digs@.len() ==> digs@[j] < 10,
        digs@.len() >= 1,
        g < 6,
    ensures
        final(s)@ == old(s)@ + "/"@ + padded18(n).subrange(3 * g as int, 3 * g as int + 3),
{
    let ghost p = padded18(n);
    proof {
        assert(spec_dec(n).len() == digs@.len());
        assert(p.len() >= 18);
    }
    s.append("/");
    s.append(digit_str(padded_digit(&digs, 3 * g, Ghost(n))));
    s.append(digit_str(padded_digit(&digs, 3 * g + 1, Ghost(n))));
    s.append(digit_str(padded_digit(&digs, 3 * g + 2, Ghost(n))));
    proof {
        let lo = 3 * g as int;
        assert(p.subrange(lo, lo + 3) =~= seq![p[lo], p[lo + 1], p[lo + 2]]);
        assert(s@ =~= old(s)@ + "/"@ + p.subrange(lo, lo + 3));
    }
}

/// Builds the sharded storage URL for a stored media file.
#[verifier::rlimit(100)]
pub fn make_image_url(prefix: &str, account_id: NearSocialAccountId, file_name: &str) -> (r:
    String)
    ensures
        r@ == spec_image_url(prefix@, account_id, file_name@),
{
    let ghost n = account_id as nat;
    let digs = dec_digits(account_id);
    let ghost p = padded18(n);
    let mut s = String::from_str("https://mastodon.near.social/system/accounts/");
    s.append(prefix);
    append_group(&mut s, &digs, 0, Ghost(n));
    append_group(&mut s, &digs, 1, Ghost(n));
    append_group(&mut s, &digs, 2, Ghost(n));
    append_group(&mut s, &digs, 3, Ghost(n));
    append_group(&mut s, &digs, 4, Ghost(n));
    append_group(&mut s, &digs, 5, Ghost(n));
    s.append("/original/");
    s.append(file_name);
    proof {
        assert(s@ =~= spec_image_url(prefix@, account_id, file_name@));
    }
    s
}

/// Derives the optional media descriptor for a consistent source triple:
/// `None` when the file name is absent, else the image with its derived
/// storage URL. The triple must be consistent (all three present or all
/// three absent).
pub fn make_image(
    account_id: NearSocialAccountId,
    prefix: &str,
    file_name: Option<String>,
    content_type: Option<String>,
    file_size: Option<u64>,
) -> (r: Option<Image>)
    requires
        media_triple_consistent(file_name.deep_view(), content_type.deep_view(), file_size),
    ensures
        r.deep_view() == spec_make_image(
            account_id,
            prefix@,
            file_name.deep_view(),
            content_type.deep_view(),
            file_size,
        ),
{
    match file_name {
        None => None,
        Some(file_name) => {
            let url = make_image_url(prefix, account_id, file_name.as_str());
            match (content_type, file_size) {
                (Some(content_type), Some(file_size)) => Some(
                    Image { url, content_type, file_size },
                ),
                _ => vstd::pervasive::unreached(),
            }
        },
    }
}

/// The external identifier derived from a handle: the handle with the
/// fixed domain suffix appended.
pub open spec fn ext_id(username: Seq<char>) -> Seq<char> {
    username + ".near"@
}

/// Distinct handles derive distinct external identifiers.
pub proof fn lemma_ext_id_injective(u1: Seq<char>, u2: Seq<char>)
    requires
        ext_id(u1) == ext_id(u2),
    ensures
        u1 == u2,
{
    assert((u1 + ".near"@).len() == u1.len() + ".near"@.len());
    assert((u2 + ".near"@).len() == u2.len() + ".near"@.len());
    assert(u1.len() == u2.len());
    assert forall|i: int| 0 <= i < u1.len() implies u1[i] == u2[i] by {
        assert(u1[i] == (u1 + ".near"@)[i]);
        assert(u2[i] == (u2 + ".near"@)[i]);
    }
    assert(u1 =~= u2);
}

/// Appends the fixed domain suffix to a handle.
pub fn add_near_suffix(username: &AccountId) -> (r: AccountId)
    ensures
        r@ == ext_id(username@),
{
    let mut r = username.clone();
    r.append(".near");
    r
}

} // verus!
