//! Laws of the signed deliveries.

use crate::delivery;
use crate::signing;
use crate::text;
use vstd::prelude::*;

verus! {

/// The value of a header, where it is sent: the first with its name.
pub open spec fn header_value(
    headers: Seq<(Seq<char>, Seq<char>)>,
    name: Seq<char>,
) -> Option<Seq<char>>
    decreases headers.len(),
{
    if headers.len() == 0 {
        None
    } else if headers.first().0 == name {
        Some(headers.first().1)
    } else {
        header_value(headers.drop_first(), name)
    }
}

/// Every attempt carries the content type, its timestamp and the version of the signature; it
/// carries a signature exactly where there is a secret, over its own timestamp and payload.
pub proof fn law_headers(run: delivery::RunView, timestamp: i64)
    ensures
        header_value(run.headers(timestamp), "Content-Type"@) == Some("application/json"@),
        header_value(run.headers(timestamp), "X-Webhook-Timestamp"@) == Some(
            text::decimal(timestamp as int),
        ),
        header_value(run.headers(timestamp), "X-Webhook-Signature-Version"@) == Some("v2"@),
        header_value(run.headers(timestamp), "X-Webhook-Signature"@) == (match run.secret {
            Some(secret) => Some(signing::signature(secret, timestamp, run.payload)),
            None => None,
        }),
{
    reveal_strlit("Content-Type");
    reveal_strlit("X-Webhook-Timestamp");
    reveal_strlit("X-Webhook-Signature-Version");
    reveal_strlit("X-Webhook-Signature");
    reveal_with_fuel(header_value, 5);
    let headers = run.headers(timestamp);
    assert("Content-Type"@[0] == 'C');
    assert("X-Webhook-Timestamp"@[0] == 'X');
    assert("X-Webhook-Signature-Version"@[0] == 'X');
    assert("X-Webhook-Signature"@[0] == 'X');
    assert("X-Webhook-Timestamp"@[10] == 'T');
    assert("X-Webhook-Signature-Version"@[10] == 'S');
    assert("X-Webhook-Signature"@[10] == 'S');
    assert("X-Webhook-Signature-Version"@.len() == 27);
    assert("X-Webhook-Signature"@.len() == 19);
    assert(headers[0].0 == "Content-Type"@);
    assert(headers.drop_first()[0] == headers[1]);
    assert(headers.drop_first().drop_first()[0] == headers[2]);
    if run.secret is Some {
        assert(headers.drop_first().drop_first().drop_first()[0] == headers[3]);
    }
}

proof fn lemma_decimal_digits(n: nat)
    ensures
        text::decimal_digits(n).len() > 0,
        forall|i: int|
            0 <= i < text::decimal_digits(n).len() ==> text::is_digit(
                #[trigger] text::decimal_digits(n)[i],
            ),
        text::digits_value(text::decimal_digits(n)) == n,
    decreases n,
{
    reveal_with_fuel(text::digits_value, 2);
    if n < 10 {
        assert(text::decimal_digits(n).drop_last() =~= Seq::<char>::empty());
        assert(text::decimal_digits(n).last() == text::digit_char(n as int));
    } else {
        lemma_decimal_digits(n / 10);
        let front = text::decimal_digits(n / 10);
        let digit = text::digit_char((n % 10) as int);
        assert(text::decimal_digits(n).drop_last() =~= front);
        assert(text::decimal_digits(n).last() == digit);
        assert(text::is_digit(digit));
        assert forall|i: int| 0 <= i < text::decimal_digits(n).len() implies text::is_digit(
            #[trigger] text::decimal_digits(n)[i],
        ) by {
            if i < front.len() {
                assert(text::is_digit(front[i]));
            }
        }
    }
}

proof fn lemma_decimal(n: int)
    ensures
        text::decimal(n).len() > 0,
        !text::decimal(n).contains('.'),
        n < 0 ==> text::decimal(n)[0] == '-' && text::digits_value(text::decimal(n).drop_first())
            == -n,
        n >= 0 ==> text::decimal(n)[0] != '-' && text::digits_value(text::decimal(n)) == n,
{
    if n < 0 {
        lemma_decimal_digits((-n) as nat);
        let digits = text::decimal_digits((-n) as nat);
        assert(text::decimal(n).drop_first() =~= digits);
        assert forall|i: int| 0 <= i < text::decimal(n).len() implies text::decimal(n)[i] != '.' by {
            if i > 0 {
                assert(text::decimal(n)[i] == digits[i - 1]);
                assert(text::is_digit(digits[i - 1]));
            }
        }
    } else {
        lemma_decimal_digits(n as nat);
        let digits = text::decimal_digits(n as nat);
        assert forall|i: int| 0 <= i < text::decimal(n).len() implies text::decimal(n)[i] != '.' by {
            assert(text::is_digit(digits[i]));
        }
        assert(text::is_digit(digits[0]));
    }
}

/// What is signed tells the timestamp and the payload apart: no other timestamp and no other
/// payload give the same text, so that a signature is bound to both.
pub proof fn law_signed_text_is_unambiguous(
    timestamp: i64,
    payload: Seq<char>,
    other_timestamp: i64,
    other_payload: Seq<char>,
)
    requires
        signing::signed_text(timestamp, payload) == signing::signed_text(
            other_timestamp,
            other_payload,
        ),
    ensures
        timestamp == other_timestamp,
        payload == other_payload,
{
    reveal_strlit(".");
    let a = text::decimal(timestamp as int);
    let b = text::decimal(other_timestamp as int);
    let s = signing::signed_text(timestamp, payload);
    lemma_decimal(timestamp as int);
    lemma_decimal(other_timestamp as int);
    let t = signing::signed_text(other_timestamp, other_payload);
    assert(s[a.len() as int] == '.');
    assert(t[b.len() as int] == '.');
    if a.len() < b.len() {
        assert(t[a.len() as int] == b[a.len() as int]);
        assert(b.contains(b[a.len() as int]));
    }
    if b.len() < a.len() {
        assert(s[b.len() as int] == a[b.len() as int]);
        assert(a.contains(a[b.len() as int]));
    }
    assert(a.len() == b.len());
    assert(a =~= s.take(a.len() as int));
    assert(b =~= t.take(b.len() as int));
    assert(payload =~= s.skip(a.len() as int + 1));
    assert(other_payload =~= t.skip(b.len() as int + 1));
}

/// A signature is the prefix `sha256=` and, in hexadecimal, the tag of the timestamp in decimal, a
/// dot and the payload, under the secret; all as UTF-8.
pub proof fn law_signature(secret: Seq<char>, timestamp: i64, payload: Seq<char>)
    ensures
        signing::signature(secret, timestamp, payload) == "sha256="@ + signing::hex_text(
            signing::hmac_sha256_tag(
                vstd::utf8::encode_utf8(secret),
                vstd::utf8::encode_utf8(text::decimal(timestamp as int) + "."@ + payload),
            ),
        ),
        signing::signed_text(timestamp, payload) == text::decimal(timestamp as int) + "."@
            + payload,
{
}

/// A payload is signed by the tag, in hexadecimal behind `sha256=`, of the timestamp in decimal, a
/// dot and the payload, under the secret.
pub proof fn law_sign(secret: &str, timestamp: i64, payload: &str, value: Option<String>)
    requires
        call_ensures(signing::sign, (secret, timestamp, payload), value),
    ensures
        value is Some,
        value->0@ == "sha256="@ + signing::hex_text(
            signing::hmac_sha256_tag(
                vstd::utf8::encode_utf8(secret@),
                vstd::utf8::encode_utf8(text::decimal(timestamp as int) + "."@ + payload@),
            ),
        ),
{
}

/// The input of the signature, and the header for a tag.
pub proof fn law_signing_parts(
    timestamp: i64,
    payload: &str,
    input: String,
    tag: &Vec<u8>,
    value: String,
    i: int,
)
    requires
        call_ensures(signing::signing_input, (timestamp, payload), input),
        call_ensures(signing::signature_header, (tag,), value),
    ensures
        input@ == text::decimal(timestamp as int) + "."@ + payload@,
        value@.len() == 7 + 2 * tag@.len(),
        value@.take(7) == "sha256="@,
        0 <= i < tag@.len() ==> value@[7 + 2 * i] == signing::hex_digit(tag@[i] / 16),
        0 <= i < tag@.len() ==> value@[8 + 2 * i] == signing::hex_digit(tag@[i] % 16),
{
    reveal_strlit("sha256=");
    assert("sha256="@.len() == 7);
    assert(value@.take(7) =~= "sha256="@);
    if 0 <= i < tag@.len() {
        let digits = signing::hex_text(tag@);
        assert(digits.len() == 2 * tag@.len());
        assert(value@[7 + 2 * i] == digits[2 * i]);
        assert(value@[8 + 2 * i] == digits[2 * i + 1]);
        assert((2 * i) / 2 == i && (2 * i) % 2 == 0);
        assert((2 * i + 1) / 2 == i && (2 * i + 1) % 2 == 1);
    }
}

/// An attempt carries the content type, its timestamp and the version of the signature, and, where
/// there is a secret, the signature over its own timestamp and payload; and no other header.
pub proof fn law_request_headers(
    run: &delivery::DeliveryRun,
    timestamp: i64,
    headers: Vec<(String, String)>,
)
    requires
        call_ensures(delivery::DeliveryRun::headers, (run, timestamp), headers),
    ensures
        headers@.len() == (if run.secret is Some {
            4nat
        } else {
            3nat
        }),
        headers@[0].0@ == "Content-Type"@,
        headers@[0].1@ == "application/json"@,
        headers@[1].0@ == "X-Webhook-Timestamp"@,
        headers@[1].1@ == text::decimal(timestamp as int),
        headers@[2].0@ == "X-Webhook-Signature-Version"@,
        headers@[2].1@ == "v2"@,
        run.secret is Some ==> headers@[3].0@ == "X-Webhook-Signature"@,
        run.secret is Some ==> headers@[3].1@ == "sha256="@ + signing::hex_text(
            signing::hmac_sha256_tag(
                vstd::utf8::encode_utf8(run.secret->0@),
                vstd::utf8::encode_utf8(
                    text::decimal(timestamp as int) + "."@ + run.payload@,
                ),
            ),
        ),
{
    let views = signing::header_views(headers@);
    assert(views.len() == headers@.len());
    assert(views[0] == signing::header(headers@[0].0@, headers@[0].1@));
    assert(views[1] == signing::header(headers@[1].0@, headers@[1].1@));
    assert(views[2] == signing::header(headers@[2].0@, headers@[2].1@));
    if run.secret is Some {
        assert(views[3] == signing::header(headers@[3].0@, headers@[3].1@));
    }
}

} // verus!
