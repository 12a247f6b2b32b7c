//! Pages of the AWS web console.

use vstd::prelude::*;
use vstd::string::*;

use crate::action::ConsoleTarget;
use crate::message::Text;
use crate::text;

verus! {

/// A byte that may stand in a URL as it is.
pub open spec fn is_unreserved(b: u8) -> bool {
    ('A' as u8 <= b <= 'Z' as u8) || ('a' as u8 <= b <= 'z' as u8) || ('0' as u8 <= b <= '9' as u8) || b == '-' as u8
        || b == '_' as u8 || b == '.' as u8 || b == '~' as u8
}

/// A byte as two hexadecimal digits.
pub open spec fn byte_hex(b: u8) -> Text {
    seq![text::hex_char(b as int / 16, true), text::hex_char(b as int % 16, true)]
}

/// A byte in a URL: itself where it is unreserved, else `mark` and two hexadecimal digits.
pub open spec fn byte_code(b: u8, mark: Text) -> Text {
    if is_unreserved(b) {
        seq![b as char]
    } else {
        mark + byte_hex(b)
    }
}

/// Bytes in a URL.
pub open spec fn bytes_code(bytes: Seq<u8>, mark: Text) -> Text
    decreases bytes.len(),
{
    if bytes.len() == 0 {
        Seq::empty()
    } else {
        bytes_code(bytes.drop_last(), mark) + byte_code(bytes.last(), mark)
    }
}

/// A text in a URL, by its UTF-8 bytes.
pub open spec fn pct_text(s: Text) -> Text {
    bytes_code(vstd::utf8::encode_utf8(s), "%"@)
}

/// A text in a fragment of the CloudWatch console, which decodes twice: `%` is written `$25`.
pub open spec fn cw_text(s: Text) -> Text {
    bytes_code(vstd::utf8::encode_utf8(s), "$25"@)
}

fn encode(s: &str, mark: &str) -> (r: String)
    ensures
        r@ == bytes_code(vstd::utf8::encode_utf8(s@), mark@),
{
    let bytes = s.as_bytes();
    let ghost all = bytes@;
    let mut out: String = String::new();
    let mut i: usize = 0;
    while i < bytes.len()
        invariant
            i <= bytes@.len(),
            all == bytes@,
            all == vstd::utf8::encode_utf8(s@),
            out@ == bytes_code(all.take(i as int), mark@),
        decreases bytes@.len() - i,
    {
        let b: u8 = bytes[i];
        let ghost before = out@;
        proof {
            assert(all.take(i as int + 1).drop_last() =~= all.take(i as int));
            assert(all.take(i as int + 1).last() == b);
        }
        let plain = (65 <= b && b <= 90) || (97 <= b && b <= 122) || (48 <= b && b <= 57) || b == 45 || b == 95 || b
            == 46 || b == 126;
        if plain {
            out.push(b as char);
            proof {
                assert(out@ =~= before + byte_code(b, mark@));
            }
        } else {
            out.append(mark);
            out.push(text::hex_digit(b / 16, true));
            out.push(text::hex_digit(b % 16, true));
            proof {
                assert(out@ =~= before + byte_code(b, mark@));
            }
        }
        i = i + 1;
    }
    proof {
        assert(all.take(all.len() as int) =~= all);
    }
    out
}

/// Percent-encoding: everything but letters, digits and `-._~` becomes `%` and two digits a byte.
pub fn pct_encode(s: &str) -> (r: String)
    ensures
        r@ == pct_text(s@),
{
    encode(s, "%")
}

/// Percent-encoding with `%` written as `$25`.
pub fn cw_encode(s: &str) -> (r: String)
    ensures
        r@ == cw_text(s@),
{
    encode(s, "$25")
}

/// Address of the page of a resource.
pub open spec fn page_of(region: Text, target: ConsoleTarget<Text>) -> Text {
    let base = "https://"@ + region + ".console.aws.amazon.com"@;
    match target {
        ConsoleTarget::LogGroup { name } => base + "/cloudwatch/home?region="@ + region
            + "#logsV2:log-groups/log-group/"@ + cw_text(name),
        ConsoleTarget::SqsQueue { url } => base + "/sqs/v3/home?region="@ + region + "#/queues/"@ + pct_text(url),
        ConsoleTarget::LambdaFunction { name } => base + "/lambda/home?region="@ + region + "#/functions/"@ + pct_text(
            name,
        ),
        ConsoleTarget::StateMachine { arn } => base + "/states/home?region="@ + region + "#/statemachines/view/"@
            + pct_text(arn),
        ConsoleTarget::Execution { arn } => base + "/states/home?region="@ + region + "#/executions/details/"@
            + pct_text(arn),
        ConsoleTarget::EventBus { name } => base + "/events/home?region="@ + region + "#/eventbus/"@ + pct_text(name),
        ConsoleTarget::Rule { event_bus, name } => base + "/events/home?region="@ + region + "#/eventbus/"@ + pct_text(
            event_bus,
        ) + "/rules/"@ + pct_text(name),
    }
}

/// Address of the page of a resource in the web console of a region.
pub fn console_url(region: &str, target: &ConsoleTarget) -> (r: String)
    ensures
        r@ == page_of(region@, target.deep_view()),
{
    let mut out = "https://".to_string();
    out.append(region);
    out.append(".console.aws.amazon.com");
    match target {
        ConsoleTarget::LogGroup { name } => {
            out.append("/cloudwatch/home?region=");
            out.append(region);
            out.append("#logsV2:log-groups/log-group/");
            out.append(cw_encode(name.as_str()).as_str());
        },
        ConsoleTarget::SqsQueue { url } => {
            out.append("/sqs/v3/home?region=");
            out.append(region);
            out.append("#/queues/");
            out.append(pct_encode(url.as_str()).as_str());
        },
        ConsoleTarget::LambdaFunction { name } => {
            out.append("/lambda/home?region=");
            out.append(region);
            out.append("#/functions/");
            out.append(pct_encode(name.as_str()).as_str());
        },
        ConsoleTarget::StateMachine { arn } => {
            out.append("/states/home?region=");
            out.append(region);
            out.append("#/statemachines/view/");
            out.append(pct_encode(arn.as_str()).as_str());
        },
        ConsoleTarget::Execution { arn } => {
            out.append("/states/home?region=");
            out.append(region);
            out.append("#/executions/details/");
            out.append(pct_encode(arn.as_str()).as_str());
        },
        ConsoleTarget::EventBus { name } => {
            out.append("/events/home?region=");
            out.append(region);
            out.append("#/eventbus/");
            out.append(pct_encode(name.as_str()).as_str());
        },
        ConsoleTarget::Rule { event_bus, name } => {
            out.append("/events/home?region=");
            out.append(region);
            out.append("#/eventbus/");
            out.append(pct_encode(event_bus.as_str()).as_str());
            out.append("/rules/");
            out.append(pct_encode(name.as_str()).as_str());
        },
    }
    out
}

// --- laws ------------------------------------------------------------------------------------

/// A character that may stand in an encoded text.
pub open spec fn is_url_char(c: char) -> bool {
    text::is_ascii_letter(c) || text::is_digit(c) || c == '-' || c == '_' || c == '.' || c == '~' || c == '%'
}

/// An encoded text holds letters, digits, `-._~` and percent signs alone.
pub proof fn law_encoded_texts_are_url_safe(s: Text, i: int)
    requires
        0 <= i < pct_text(s).len(),
    ensures
        is_url_char(pct_text(s)[i]),
{
    lemma_url_safe(vstd::utf8::encode_utf8(s), i);
}

proof fn lemma_url_safe(bytes: Seq<u8>, i: int)
    requires
        0 <= i < bytes_code(bytes, "%"@).len(),
    ensures
        is_url_char(bytes_code(bytes, "%"@)[i]),
    decreases bytes.len(),
{
    reveal_strlit("%");
    assert("%"@ =~= seq!['%']);
    let head = bytes_code(bytes.drop_last(), "%"@);
    let b = bytes.last();
    if i < head.len() {
        lemma_url_safe(bytes.drop_last(), i);
    } else {
        let code = byte_code(b, "%"@);
        assert(bytes_code(bytes, "%"@)[i] == code[i - head.len()]);
        if !is_unreserved(b) {
            assert(code =~= seq!['%', text::hex_char(b as int / 16, true), text::hex_char(b as int % 16, true)]);
        }
    }
}

/// The value of a hexadecimal digit in upper case.
pub open spec fn hex_value(c: char) -> int {
    if text::is_digit(c) {
        text::digit_value(c)
    } else {
        c as int - 'A' as int + 10
    }
}

/// The bytes that a text stands for in which `mark` comes before the two digits of a byte.
pub open spec fn decoded(code: Text, mark: Text) -> Seq<u8>
    decreases code.len(),
{
    if code.len() == 0 {
        Seq::empty()
    } else if text::has_prefix(code, mark) && code.len() >= mark.len() + 2 {
        let n = mark.len() as int;
        seq![(hex_value(code[n]) * 16 + hex_value(code[n + 1])) as u8] + decoded(code.skip(n + 2), mark)
    } else {
        seq![code[0] as u8] + decoded(code.skip(1), mark)
    }
}

proof fn lemma_hex_value(d: int)
    requires
        0 <= d < 16,
    ensures
        hex_value(text::hex_char(d, true)) == d,
{
}

/// What is decoded of a code that starts with that of a byte is that byte and what follows it.
proof fn lemma_decoded_first(b: u8, rest: Text, mark: Text)
    requires
        mark.len() > 0,
        mark[0] == '%' || mark[0] == '$',
    ensures
        decoded(byte_code(b, mark) + rest, mark) == seq![b] + decoded(rest, mark),
{
    let code = byte_code(b, mark) + rest;
    if is_unreserved(b) {
        assert(code[0] == b as char);
        if text::has_prefix(code, mark) {
            assert(code.take(mark.len() as int)[0] == code[0]);
        }
        assert(code.skip(1) =~= rest);
    } else {
        let n = mark.len() as int;
        lemma_hex_value(b as int / 16);
        lemma_hex_value(b as int % 16);
        assert(code.take(n) =~= mark);
        assert(code[n] == byte_hex(b)[0]);
        assert(code[n + 1] == byte_hex(b)[1]);
        assert(code.skip(n + 2) =~= rest);
    }
}

proof fn lemma_code_of_first(bytes: Seq<u8>, mark: Text)
    requires
        bytes.len() > 0,
    ensures
        bytes_code(bytes, mark) == byte_code(bytes[0], mark) + bytes_code(bytes.drop_first(), mark),
    decreases bytes.len(),
{
    let rest = bytes.drop_first();
    if bytes.len() == 1 {
        assert(bytes.drop_last() =~= Seq::empty());
        assert(rest =~= Seq::empty());
        assert(bytes_code(bytes.drop_last(), mark) =~= Seq::empty());
        assert(bytes_code(bytes, mark) =~= byte_code(bytes[0], mark) + bytes_code(rest, mark));
    } else {
        lemma_code_of_first(bytes.drop_last(), mark);
        assert(bytes.drop_last().drop_first() =~= rest.drop_last());
        let (first, inner, last) = (
            byte_code(bytes[0], mark),
            bytes_code(rest.drop_last(), mark),
            byte_code(bytes.last(), mark),
        );
        assert(first + inner + last =~= first + (inner + last));
    }
}

proof fn lemma_decoded(bytes: Seq<u8>, mark: Text)
    requires
        mark.len() > 0,
        mark[0] == '%' || mark[0] == '$',
    ensures
        decoded(bytes_code(bytes, mark), mark) == bytes,
    decreases bytes.len(),
{
    if bytes.len() == 0 {
        assert(bytes =~= Seq::empty());
    } else {
        let rest = bytes.drop_first();
        lemma_code_of_first(bytes, mark);
        lemma_decoded_first(bytes[0], bytes_code(rest, mark), mark);
        lemma_decoded(rest, mark);
        assert(seq![bytes[0]] + rest =~= bytes);
    }
}

/// Decoding an encoded text gives the bytes of the text back, in either encoding.
pub proof fn law_decoding_gives_the_text_back(s: Text)
    ensures
        decoded(pct_text(s), "%"@) == vstd::utf8::encode_utf8(s),
        decoded(cw_text(s), "$25"@) == vstd::utf8::encode_utf8(s),
{
    reveal_strlit("%");
    reveal_strlit("$25");
    lemma_decoded(vstd::utf8::encode_utf8(s), "%"@);
    lemma_decoded(vstd::utf8::encode_utf8(s), "$25"@);
}

/// Two texts never share an encoding, so that a page leads to one resource.
pub proof fn law_encoding_is_injective(a: Text, b: Text)
    requires
        pct_text(a) == pct_text(b) || cw_text(a) == cw_text(b),
    ensures
        a == b,
{
    law_decoding_gives_the_text_back(a);
    law_decoding_gives_the_text_back(b);
    vstd::utf8::encode_utf8_decode_utf8(a);
    vstd::utf8::encode_utf8_decode_utf8(b);
}

/// The page of a resource lies in the console of its region, in the part of its service, and ends
/// in its encoded name.
pub proof fn law_pages_lead_to_their_resources(region: Text, name: Text, bus: Text)
    ensures
        ({
            let base = "https://"@ + region + ".console.aws.amazon.com"@;
            let home = "/home?region="@ + region;
            &&& page_of(region, ConsoleTarget::LogGroup { name }) == base + "/cloudwatch"@ + home
                + "#logsV2:log-groups/log-group/"@ + cw_text(name)
            &&& page_of(region, ConsoleTarget::SqsQueue { url: name }) == base + "/sqs/v3"@ + home + "#/queues/"@
                + pct_text(name)
            &&& page_of(region, ConsoleTarget::LambdaFunction { name }) == base + "/lambda"@ + home + "#/functions/"@
                + pct_text(name)
            &&& page_of(region, ConsoleTarget::StateMachine { arn: name }) == base + "/states"@ + home
                + "#/statemachines/view/"@ + pct_text(name)
            &&& page_of(region, ConsoleTarget::Execution { arn: name }) == base + "/states"@ + home
                + "#/executions/details/"@ + pct_text(name)
            &&& page_of(region, ConsoleTarget::EventBus { name }) == base + "/events"@ + home + "#/eventbus/"@ + pct_text(
                name,
            )
            &&& page_of(region, ConsoleTarget::Rule { event_bus: bus, name }) == base + "/events"@ + home
                + "#/eventbus/"@ + pct_text(bus) + "/rules/"@ + pct_text(name)
        }),
{
    reveal_strlit("/home?region=");
    reveal_strlit("/cloudwatch");
    reveal_strlit("/cloudwatch/home?region=");
    reveal_strlit("/sqs/v3");
    reveal_strlit("/sqs/v3/home?region=");
    reveal_strlit("/lambda");
    reveal_strlit("/lambda/home?region=");
    reveal_strlit("/states");
    reveal_strlit("/states/home?region=");
    reveal_strlit("/events");
    reveal_strlit("/events/home?region=");
    let home = "/home?region="@;
    assert("/cloudwatch/home?region="@ =~= "/cloudwatch"@ + home);
    assert("/sqs/v3/home?region="@ =~= "/sqs/v3"@ + home);
    assert("/lambda/home?region="@ =~= "/lambda"@ + home);
    assert("/states/home?region="@ =~= "/states"@ + home);
    assert("/events/home?region="@ =~= "/events"@ + home);
    let base = "https://"@ + region + ".console.aws.amazon.com"@;
    lemma_three_way(base, "/cloudwatch"@, home, region);
    lemma_three_way(base, "/sqs/v3"@, home, region);
    lemma_three_way(base, "/lambda"@, home, region);
    lemma_three_way(base, "/states"@, home, region);
    lemma_three_way(base, "/events"@, home, region);
}

proof fn lemma_three_way(a: Text, b: Text, c: Text, d: Text)
    ensures
        a + (b + c) + d == a + b + (c + d),
{
    assert(a + (b + c) + d =~= a + b + (c + d));
}

/// Letters, digits and four marks stand in an address as they are; a slash, a blank, a colon and
/// everything else goes by two digits behind the mark.
pub proof fn law_what_stands_in_an_address(b: u8, mark: Text)
    ensures
        48 <= b <= 57 || 65 <= b <= 90 || 97 <= b <= 122 ==> byte_code(b, mark) == seq![b as char],
        b == 45 || b == 46 || b == 95 || b == 126 ==> byte_code(b, mark) == seq![b as char],
        byte_code(47, mark) == mark + seq!['2', 'F'],
        byte_code(32, mark) == mark + seq!['2', '0'],
        byte_code(58, mark) == mark + seq!['3', 'A'],
        byte_code(37, mark) == mark + seq!['2', '5'],
        b >= 128 ==> byte_code(b, mark).len() == mark.len() + 2 && text::has_prefix(byte_code(b, mark), mark),
{
    assert(byte_code(47, mark) =~= mark + seq!['2', 'F']);
    assert(byte_code(32, mark) =~= mark + seq!['2', '0']);
    assert(byte_code(58, mark) =~= mark + seq!['3', 'A']);
    assert(byte_code(37, mark) =~= mark + seq!['2', '5']);
    assert(b >= 128 ==> (mark + byte_hex(b)).take(mark.len() as int) =~= mark);
}

/// Every byte of a text is written by itself, one after the other.
pub proof fn law_addresses_are_written_byte_by_byte(a: Seq<u8>, b: Seq<u8>, mark: Text)
    ensures
        bytes_code(a + b, mark) == bytes_code(a, mark) + bytes_code(b, mark),
        bytes_code(Seq::empty(), mark).len() == 0,
    decreases b.len(),
{
    if b.len() == 0 {
        assert(a + b =~= a);
        assert(bytes_code(a, mark) + bytes_code(b, mark) =~= bytes_code(a, mark));
    } else {
        assert((a + b).drop_last() =~= a + b.drop_last());
        assert((a + b).last() == b.last());
        law_addresses_are_written_byte_by_byte(a, b.drop_last(), mark);
        assert(bytes_code(a + b, mark) =~= bytes_code(a, mark) + bytes_code(b, mark));
    }
}

} // verus!
