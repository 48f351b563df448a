//! What is written is read back: the text of a line, read again, gives the
//! value that it was written for, whatever follows the line.

use crate::sdp::attribute::{Attribute, AttributeView};
use crate::sdp::decimal::{
    decimal, digits_value, lemma_decimal, lemma_digits_value_moved, signed_decimal,
};
use crate::sdp::media_information::{spaced, MediaInformation, MediaInformationView};
use crate::sdp::ntp::{parsed_seconds, sign, unit, Duration, Instant};
use crate::sdp::time_zones::{
    formatted_time_zone, formatted_time_zones, TimeZone, TimeZoneView, TimeZones,
};
use crate::sdp::timing::{Timing, TimingView};
use crate::sdp::bandwidth::{Bandwidth, BandwidthView};
use crate::sdp::connection_data::{ConnectionData, ConnectionDataView};
use crate::sdp::email_address::EmailAddress;
use crate::sdp::encryption_key::{parsed_keyed, EncryptionKey, EncryptionKeyView};
use crate::sdp::origin::{parsed_next_field, parsed_next_number, Origin, OriginView};
use crate::sdp::information::Information;
use crate::sdp::parse::{parsed_more, parsed_separated, Format, Parse};
use crate::sdp::phone_number::PhoneNumber;
use crate::sdp::repeat_times::{spaced_seconds, RepeatTimes, RepeatTimesView};
use crate::sdp::session_name::SessionName;
use crate::sdp::util::{
    crlf, is_digit, line_ending, literal, parsed_field, parsed_nonempty_line, parsed_number_field,
    scan, token, Stop,
};
use crate::sdp::version::Version;
use vstd::prelude::*;

verus! {

/// Whether the text of a value, with `rest` after it, is read back as the
/// value, and exactly as far as the text goes.
pub open spec fn reads_back<T: Parse + Format>(value: <T as DeepView>::V, rest: Seq<char>) -> bool {
    T::parsed(T::formatted(value) + rest, 0) == Some(
        (value, T::formatted(value).len() as int),
    )
}

/// Whether no character of a text is in a set.
pub open spec fn free_of(text: Seq<char>, stop: Stop) -> bool {
    forall|i: int| 0 <= i < text.len() ==> !stop.stops(#[trigger] text[i])
}

/// Whether a text can be the text of a line: not empty, with no end of
/// line in it.
pub open spec fn line_text(text: Seq<char>) -> bool {
    text.len() > 0 && free_of(text, Stop::Line)
}

/// Whether a text can be a field: not empty, with no space and no end of
/// line in it.
pub open spec fn field_text(text: Seq<char>) -> bool {
    text.len() > 0 && free_of(text, Stop::Field)
}

/// A scan runs over what is free of its set, up to the end of the text or
/// to a character of the set.
pub proof fn lemma_scan_over(text: Seq<char>, from: int, end: int, stop: Stop)
    requires
        0 <= from <= end <= text.len(),
        forall|i: int| from <= i < end ==> !stop.stops(#[trigger] text[i]),
        end == text.len() || stop.stops(text[end]),
    ensures
        scan(text, from, stop) == end,
    decreases end - from,
{
    if from < end {
        lemma_scan_over(text, from + 1, end, stop);
    }
}

/// A piece that is free of a set, with a character of the set after it, is
/// scanned from its start to its end.
pub proof fn lemma_scan_piece(
    before: Seq<char>,
    piece: Seq<char>,
    after: Seq<char>,
    stop: Stop,
)
    requires
        free_of(piece, stop),
        after.len() == 0 || stop.stops(after[0]),
    ensures
        scan(before + piece + after, before.len() as int, stop) == before.len() + piece.len(),
{
    let text = before + piece + after;
    let from = before.len() as int;
    let end = from + piece.len();
    assert forall|i: int| from <= i < end implies !stop.stops(#[trigger] text[i]) by {
        assert(text[i] == piece[i - from]);
    }
    if after.len() > 0 {
        assert(text[end] == after[0]);
    }
    lemma_scan_over(text, from, end, stop);
}

/// A word is found where it stands.
pub proof fn lemma_literal_at(before: Seq<char>, word: Seq<char>, after: Seq<char>)
    ensures
        literal(before + word + after, before.len() as int, word) == Some(
            (before.len() + word.len()) as int,
        ),
{
    let text = before + word + after;
    assert(text.subrange(before.len() as int, (before.len() + word.len()) as int) =~= word);
}

/// The end of a line is found where it was written.
pub proof fn lemma_line_ending_at(before: Seq<char>, after: Seq<char>)
    ensures
        line_ending(before + crlf() + after, before.len() as int) == Some(
            (before.len() + 2) as int,
        ),
{
    let text = before + crlf() + after;
    assert(text[before.len() as int] == crlf()[0]);
    assert(text[(before.len() + 1) as int] == crlf()[1]);
}

/// A line with text is read back.
pub proof fn lemma_nonempty_line_reads_back(tag: Seq<char>, value: Seq<char>, rest: Seq<char>)
    requires
        line_text(value),
    ensures
        parsed_nonempty_line(tag + value + crlf() + rest, 0, tag) == Some(
            (value, (tag + value + crlf()).len() as int),
        ),
{
    let text = tag + value + crlf() + rest;
    let empty = Seq::<char>::empty();
    assert(text =~= empty + tag + (value + crlf() + rest));
    lemma_literal_at(empty, tag, value + crlf() + rest);
    assert(text =~= tag + value + (crlf() + rest));
    assert((crlf() + rest)[0] == '\r');
    lemma_scan_piece(tag, value, crlf() + rest, Stop::Line);
    assert(text =~= (tag + value) + crlf() + rest);
    lemma_line_ending_at(tag + value, rest);
    assert(text.subrange(tag.len() as int, (tag.len() + value.len()) as int) =~= value);
}

/// The version line is read back.
pub proof fn lemma_version_reads_back(rest: Seq<char>)
    ensures
        reads_back::<Version>((), rest),
{
    let word = "v=0"@;
    let text = word + crlf() + rest;
    let empty = Seq::<char>::empty();
    assert(text =~= empty + word + (crlf() + rest));
    lemma_literal_at(empty, word, crlf() + rest);
    lemma_line_ending_at(word, rest);
}

/// A session name without an end of line in it is read back.
pub proof fn lemma_session_name_reads_back(value: Seq<char>, rest: Seq<char>)
    requires
        line_text(value),
    ensures
        reads_back::<SessionName>(value, rest),
{
    lemma_nonempty_line_reads_back("s="@, value, rest);
}

/// An information line without an end of line in its text is read back.
pub proof fn lemma_information_reads_back(value: Seq<char>, rest: Seq<char>)
    requires
        line_text(value),
    ensures
        reads_back::<Information>(value, rest),
{
    lemma_nonempty_line_reads_back("i="@, value, rest);
}

/// An email line without an end of line in its text is read back.
pub proof fn lemma_email_address_reads_back(value: Seq<char>, rest: Seq<char>)
    requires
        line_text(value),
    ensures
        reads_back::<EmailAddress>(value, rest),
{
    lemma_nonempty_line_reads_back("e="@, value, rest);
}

/// A phone line without an end of line in its text is read back.
pub proof fn lemma_phone_number_reads_back(value: Seq<char>, rest: Seq<char>)
    requires
        line_text(value),
    ensures
        reads_back::<PhoneNumber>(value, rest),
{
    lemma_nonempty_line_reads_back("p="@, value, rest);
}

/// Whether a text, where it is not empty, starts with a character that
/// ends a number of seconds: no digit, and no letter of a unit.
pub open spec fn ends_seconds(after: Seq<char>) -> bool {
    after.len() == 0 || (!is_digit(after[0]) && after[0] != 'd' && after[0] != 'h' && after[0]
        != 'm' && after[0] != 's')
}

/// A number that was written is found as digits, from its start to its
/// end, which stand for the number.
pub proof fn lemma_decimal_piece(before: Seq<char>, n: nat, after: Seq<char>)
    requires
        after.len() == 0 || !is_digit(after[0]),
    ensures
        token(before + decimal(n) + after, before.len() as int, Stop::NonDigit) == Some(
            (before.len() + decimal(n).len()) as int,
        ),
        digits_value(
            before + decimal(n) + after,
            before.len() as int,
            (before.len() + decimal(n).len()) as int,
        ) == n,
{
    let text = before + decimal(n) + after;
    lemma_decimal(n);
    lemma_scan_piece(before, decimal(n), after, Stop::NonDigit);
    assert forall|i: int|
        before.len() <= i < before.len() + decimal(n).len() implies #[trigger] text[i]
        == decimal(n)[i - before.len() + 0] by {}
    lemma_digits_value_moved(text, before.len() as int, decimal(n), 0, decimal(n).len() as int);
}

/// A number of seconds that was written is read back, where what follows
/// it ends it.
pub proof fn lemma_seconds_piece(before: Seq<char>, n: nat, after: Seq<char>, max: nat)
    requires
        ends_seconds(after),
        n <= max,
    ensures
        parsed_seconds(before + decimal(n) + after, before.len() as int, max) == Some(
            (n, (before.len() + decimal(n).len()) as int),
        ),
{
    let text = before + decimal(n) + after;
    let end = (before.len() + decimal(n).len()) as int;
    reveal(parsed_seconds);
    lemma_decimal_piece(before, n, after);
    if after.len() > 0 {
        assert(text[end] == after[0]);
    }
    assert(unit(text, end) == (1nat, end));
    assert(n * 1 == n);
}

/// A point in time that was written is read back, where what follows it
/// ends it.
pub proof fn lemma_instant_piece(before: Seq<char>, secs: u64, after: Seq<char>)
    requires
        ends_seconds(after),
    ensures
        Instant::parsed(before + decimal(secs as nat) + after, before.len() as int) == Some(
            (secs, (before.len() + decimal(secs as nat).len()) as int),
        ),
{
    lemma_seconds_piece(before, secs as nat, after, u64::MAX as nat);
}

/// A span of time that was written is read back, where what follows it
/// ends it. The least value of `i64` is left out: its text is read as no
/// span, since without its sign it is above the greatest.
pub proof fn lemma_duration_piece(before: Seq<char>, secs: i64, after: Seq<char>)
    requires
        ends_seconds(after),
        secs > i64::MIN,
    ensures
        Duration::parsed(before + signed_decimal(secs as int) + after, before.len() as int)
            == Some((secs, (before.len() + signed_decimal(secs as int).len()) as int)),
{
    let text = before + signed_decimal(secs as int) + after;
    let from = before.len() as int;
    if secs < 0 {
        let n = (-secs) as nat;
        assert(text =~= (before + seq!['-']) + decimal(n) + after);
        assert(text[from] == '-');
        assert(sign(text, from) == (true, from + 1));
        lemma_seconds_piece(before + seq!['-'], n, after, i64::MAX as nat);
    } else {
        let n = secs as nat;
        lemma_decimal(n);
        assert(text[from] == decimal(n)[0]);
        assert(sign(text, from) == (false, from));
        lemma_seconds_piece(before, n, after, i64::MAX as nat);
    }
}

/// A timing line is read back.
pub proof fn lemma_timing_reads_back(value: TimingView, rest: Seq<char>)
    ensures
        reads_back::<Timing>(value, rest),
{
    let start = decimal(value.start_time as nat);
    let stop = decimal(value.stop_time as nat);
    let text = Timing::formatted(value) + rest;
    let empty = Seq::<char>::empty();
    reveal_strlit(" ");
    assert(text =~= empty + "t="@ + (start + " "@ + stop + crlf() + rest));
    lemma_literal_at(empty, "t="@, start + " "@ + stop + crlf() + rest);
    assert(text =~= "t="@ + start + (" "@ + stop + crlf() + rest));
    assert((" "@ + stop + crlf() + rest)[0] == ' ');
    lemma_instant_piece("t="@, value.start_time, " "@ + stop + crlf() + rest);
    assert(text =~= ("t="@ + start) + " "@ + (stop + crlf() + rest));
    lemma_literal_at("t="@ + start, " "@, stop + crlf() + rest);
    assert(text =~= ("t="@ + start + " "@) + stop + (crlf() + rest));
    assert((crlf() + rest)[0] == '\r');
    lemma_instant_piece("t="@ + start + " "@, value.stop_time, crlf() + rest);
    assert(text =~= ("t="@ + start + " "@ + stop) + crlf() + rest);
    lemma_line_ending_at("t="@ + start + " "@ + stop, rest);
}

/// Whether a text, where it is not empty, starts with a character that
/// ends a field.
pub open spec fn ends_field(after: Seq<char>) -> bool {
    after.len() == 0 || Stop::Field.stops(after[0])
}

/// A field that was written is read back, where what follows it ends it.
pub proof fn lemma_field_piece(before: Seq<char>, field: Seq<char>, after: Seq<char>)
    requires
        field_text(field),
        ends_field(after),
    ensures
        parsed_field(before + field + after, before.len() as int) == Some(
            (field, (before.len() + field.len()) as int),
        ),
{
    let text = before + field + after;
    reveal(parsed_field);
    lemma_scan_piece(before, field, after, Stop::Field);
    assert(text.subrange(before.len() as int, (before.len() + field.len()) as int) =~= field);
}

/// A space and a field that were written are read back, where what follows
/// them ends the field.
pub proof fn lemma_next_field_piece(before: Seq<char>, field: Seq<char>, after: Seq<char>)
    requires
        field_text(field),
        ends_field(after),
    ensures
        parsed_next_field(before + " "@ + field + after, before.len() as int) == Some(
            (field, (before.len() + 1 + field.len()) as int),
        ),
{
    reveal_strlit(" ");
    let text = before + " "@ + field + after;
    assert(text =~= before + " "@ + (field + after));
    lemma_literal_at(before, " "@, field + after);
    lemma_field_piece(before + " "@, field, after);
}

/// A number that was written as a field is read back, where what follows
/// it ends the field.
pub proof fn lemma_number_field_piece(before: Seq<char>, n: u64, after: Seq<char>)
    requires
        ends_field(after),
    ensures
        parsed_number_field(before + decimal(n as nat) + after, before.len() as int) == Some(
            (n, (before.len() + decimal(n as nat).len()) as int),
        ),
{
    let digits = decimal(n as nat);
    let text = before + digits + after;
    lemma_decimal(n as nat);
    assert(free_of(digits, Stop::Field)) by {
        assert forall|i: int| 0 <= i < digits.len() implies !Stop::Field.stops(
            #[trigger] digits[i],
        ) by {
            assert(is_digit(digits[i]));
        }
    }
    lemma_scan_piece(before, digits, after, Stop::Field);
    lemma_decimal_piece(before, n as nat, after);
    assert(text[before.len() as int] == digits[0]);
}

/// A space and a number that were written as a field are read back, where
/// what follows them ends the field.
pub proof fn lemma_next_number_piece(before: Seq<char>, n: u64, after: Seq<char>)
    requires
        ends_field(after),
    ensures
        parsed_next_number(before + " "@ + decimal(n as nat) + after, before.len() as int)
            == Some((n, (before.len() + 1 + decimal(n as nat).len()) as int)),
{
    reveal_strlit(" ");
    let text = before + " "@ + decimal(n as nat) + after;
    assert(text =~= before + " "@ + (decimal(n as nat) + after));
    lemma_literal_at(before, " "@, decimal(n as nat) + after);
    lemma_number_field_piece(before + " "@, n, after);
}

/// Whether a connection line can hold a value: each field is one.
pub open spec fn connection_data_in_order(value: ConnectionDataView) -> bool {
    field_text(value.network_type) && field_text(value.address_type) && field_text(
        value.connection_address,
    )
}

/// A connection line whose fields are fields is read back.
#[verifier::rlimit(30)]
pub proof fn lemma_connection_data_reads_back(value: ConnectionDataView, rest: Seq<char>)
    requires
        connection_data_in_order(value),
    ensures
        reads_back::<ConnectionData>(value, rest),
{
    let text = ConnectionData::formatted(value) + rest;
    let empty = Seq::<char>::empty();
    let a = value.network_type;
    let b = value.address_type;
    let c = value.connection_address;
    reveal_strlit(" ");
    assert(text =~= empty + "c="@ + (a + " "@ + b + " "@ + c + crlf() + rest));
    lemma_literal_at(empty, "c="@, a + " "@ + b + " "@ + c + crlf() + rest);
    assert(text =~= "c="@ + a + (" "@ + b + " "@ + c + crlf() + rest));
    assert((" "@ + b + " "@ + c + crlf() + rest)[0] == ' ');
    lemma_field_piece("c="@, a, " "@ + b + " "@ + c + crlf() + rest);
    assert(text =~= ("c="@ + a) + " "@ + (b + " "@ + c + crlf() + rest));
    lemma_literal_at("c="@ + a, " "@, b + " "@ + c + crlf() + rest);
    assert(text =~= ("c="@ + a + " "@) + b + (" "@ + c + crlf() + rest));
    assert((" "@ + c + crlf() + rest)[0] == ' ');
    lemma_field_piece("c="@ + a + " "@, b, " "@ + c + crlf() + rest);
    assert(text =~= ("c="@ + a + " "@ + b) + " "@ + (c + crlf() + rest));
    lemma_literal_at("c="@ + a + " "@ + b, " "@, c + crlf() + rest);
    assert(text =~= ("c="@ + a + " "@ + b + " "@) + c + (crlf() + rest));
    assert((crlf() + rest)[0] == '\r');
    lemma_field_piece("c="@ + a + " "@ + b + " "@, c, crlf() + rest);
    assert(text =~= ("c="@ + a + " "@ + b + " "@ + c) + crlf() + rest);
    lemma_line_ending_at("c="@ + a + " "@ + b + " "@ + c, rest);
}

/// Whether an origin line can hold a value: each of its texts is a field.
pub open spec fn origin_in_order(value: OriginView) -> bool {
    field_text(value.username) && field_text(value.network_type) && field_text(
        value.address_type,
    ) && field_text(value.unicast_address)
}

/// How a text with a piece in it is put together does not matter.
pub proof fn lemma_regroup(head: Seq<char>, piece: Seq<char>, tail: Seq<char>)
    ensures
        (head + piece) + tail == head + (piece + tail),
{
    assert((head + piece) + tail =~= head + (piece + tail));
}

/// How a text with a space and a piece in it is put together does not
/// matter, and what follows the head starts with the space.
pub proof fn lemma_regroup_spaced(head: Seq<char>, piece: Seq<char>, tail: Seq<char>)
    ensures
        ((head + " "@) + piece) + tail == head + (" "@ + (piece + tail)),
        ends_field(" "@ + (piece + tail)),
        ends_seconds(" "@ + (piece + tail)),
        " "@.len() == 1,
{
    reveal_strlit(" ");
    assert(((head + " "@) + piece) + tail =~= head + (" "@ + (piece + tail)));
    assert((" "@ + (piece + tail))[0] == ' ');
}

/// What follows the last piece of a line ends a field and a number.
pub proof fn lemma_line_end_follows(rest: Seq<char>)
    ensures
        ends_field(crlf() + rest),
        ends_seconds(crlf() + rest),
        !Stop::Line.stops(' '),
        (crlf() + rest).len() > 0,
        (crlf() + rest)[0] == '\r',
{
    assert((crlf() + rest)[0] == '\r');
}

/// An origin line whose texts are fields is read back.
#[verifier::rlimit(30)]
pub proof fn lemma_origin_reads_back(value: OriginView, rest: Seq<char>)
    requires
        origin_in_order(value),
    ensures
        reads_back::<Origin>(value, rest),
{
    let text = Origin::formatted(value) + rest;
    let sp = " "@;
    let u = value.username;
    let i = decimal(value.session_id as nat);
    let v = decimal(value.session_version as nat);
    let n = value.network_type;
    let a = value.address_type;
    let h = value.unicast_address;
    // The line up to the end of each piece.
    let head0 = "o="@;
    let head1 = head0 + u;
    let head2 = head1 + sp + i;
    let head3 = head2 + sp + v;
    let head4 = head3 + sp + n;
    let head5 = head4 + sp + a;
    let head6 = head5 + sp + h;
    // What follows each piece.
    let tail6 = crlf() + rest;
    let tail5 = sp + (h + tail6);
    let tail4 = sp + (a + tail5);
    let tail3 = sp + (n + tail4);
    let tail2 = sp + (v + tail3);
    let tail1 = sp + (i + tail2);
    let end = (head6.len() + 2) as int;
    assert(Origin::formatted(value).len() == end) by {
        assert(Origin::formatted(value) == head6 + crlf());
    }
    lemma_line_end_follows(rest);
    assert(text == head6 + tail6) by {
        lemma_regroup(head6, crlf(), rest);
    }
    assert(text == head5 + tail5) by {
        lemma_regroup_spaced(head5, h, tail6);
    }
    assert(text == head4 + tail4) by {
        lemma_regroup_spaced(head4, a, tail5);
    }
    assert(text == head3 + tail3) by {
        lemma_regroup_spaced(head3, n, tail4);
    }
    assert(text == head2 + tail2) by {
        lemma_regroup_spaced(head2, v, tail3);
    }
    assert(text == head1 + tail1) by {
        lemma_regroup_spaced(head1, i, tail2);
    }
    assert(literal(text, 0, head0) == Some(head0.len() as int)) by {
        let empty = Seq::<char>::empty();
        lemma_regroup(head0, u, tail1);
        assert(empty + head0 =~= head0);
        lemma_literal_at(empty, head0, u + tail1);
    }
    assert(parsed_field(text, head0.len() as int) == Some((u, head1.len() as int))) by {
        lemma_regroup_spaced(head1, i, tail2);
        lemma_field_piece(head0, u, tail1);
    }
    assert(parsed_next_number(text, head1.len() as int) == Some(
        (value.session_id, head2.len() as int),
    )) by {
        lemma_regroup_spaced(head2, v, tail3);
        lemma_next_number_piece(head1, value.session_id, tail2);
    }
    assert(parsed_next_number(text, head2.len() as int) == Some(
        (value.session_version, head3.len() as int),
    )) by {
        lemma_regroup_spaced(head3, n, tail4);
        lemma_next_number_piece(head2, value.session_version, tail3);
    }
    assert(parsed_next_field(text, head3.len() as int) == Some((n, head4.len() as int))) by {
        lemma_regroup_spaced(head4, a, tail5);
        lemma_next_field_piece(head3, n, tail4);
    }
    assert(parsed_next_field(text, head4.len() as int) == Some((a, head5.len() as int))) by {
        lemma_regroup_spaced(head5, h, tail6);
        lemma_next_field_piece(head4, a, tail5);
    }
    assert(parsed_next_field(text, head5.len() as int) == Some((h, head6.len() as int))) by {
        lemma_regroup_spaced(head5, h, tail6);
        lemma_next_field_piece(head5, h, tail6);
    }
    assert(line_ending(text, head6.len() as int) == Some(end)) by {
        lemma_line_ending_at(head6, rest);
    }
    assert(Origin::parsed(text, 0) == Some((value, end)));
}

/// Whether an attribute line can hold a value: the name is not empty and
/// has no colon and no end of line in it, and the value, where there is
/// one, has no end of line in it.
pub open spec fn attribute_in_order(value: AttributeView) -> bool {
    &&& value.name.len() > 0
    &&& free_of(value.name, Stop::Name)
    &&& value.value matches Some(text) ==> free_of(text, Stop::Line)
}

/// An attribute line that can hold its value is read back.
#[verifier::rlimit(30)]
pub proof fn lemma_attribute_reads_back(value: AttributeView, rest: Seq<char>)
    requires
        attribute_in_order(value),
    ensures
        reads_back::<Attribute>(value, rest),
{
    let text = Attribute::formatted(value) + rest;
    let empty = Seq::<char>::empty();
    let head0 = "a="@;
    let head1 = head0 + value.name;
    let tail = crlf() + rest;
    lemma_line_end_follows(rest);
    reveal_strlit(":");
    match value.value {
        Some(v) => {
            let head2 = head1 + ":"@ + v;
            let end = (head2.len() + 2) as int;
            assert(Attribute::formatted(value).len() == end) by {
                assert(Attribute::formatted(value) == head2 + crlf());
            }
            assert(text == head2 + tail) by {
                lemma_regroup(head2, crlf(), rest);
            }
            let tail1 = ":"@ + (v + tail);
            assert(text == head1 + tail1) by {
                assert(((head1 + ":"@) + v) + tail =~= head1 + (":"@ + (v + tail)));
            }
            assert(tail1[0] == ':');
            assert(literal(text, 0, head0) == Some(head0.len() as int)) by {
                lemma_regroup(head0, value.name, tail1);
                assert(empty + head0 =~= head0);
                lemma_literal_at(empty, head0, value.name + tail1);
            }
            assert(token(text, head0.len() as int, Stop::Name) == Some(head1.len() as int)) by {
                lemma_scan_piece(head0, value.name, tail1, Stop::Name);
            }
            assert(text.subrange(head0.len() as int, head1.len() as int) == value.name) by {
                assert((head0 + value.name + tail1).subrange(
                    head0.len() as int,
                    head1.len() as int,
                ) =~= value.name);
            }
            assert(text[head1.len() as int] == ':') by {
                assert((head1 + tail1)[head1.len() as int] == tail1[0]);
            }
            assert(scan(text, (head1.len() + 1) as int, Stop::Line) == head2.len()) by {
                lemma_scan_piece(head1 + ":"@, v, tail, Stop::Line);
            }
            assert(text.subrange((head1.len() + 1) as int, head2.len() as int) == v) by {
                assert((head1 + ":"@ + v + tail).subrange(
                    (head1.len() + 1) as int,
                    head2.len() as int,
                ) =~= v);
            }
            assert(line_ending(text, head2.len() as int) == Some(end)) by {
                lemma_line_ending_at(head2, rest);
            }
        },
        None => {
            let end = (head1.len() + 2) as int;
            assert(Attribute::formatted(value).len() == end) by {
                assert(Attribute::formatted(value) == head1 + crlf());
            }
            assert(text == head1 + tail) by {
                lemma_regroup(head1, crlf(), rest);
            }
            assert(literal(text, 0, head0) == Some(head0.len() as int)) by {
                lemma_regroup(head0, value.name, tail);
                assert(empty + head0 =~= head0);
                lemma_literal_at(empty, head0, value.name + tail);
            }
            assert(token(text, head0.len() as int, Stop::Name) == Some(head1.len() as int)) by {
                lemma_scan_piece(head0, value.name, tail, Stop::Name);
            }
            assert(text.subrange(head0.len() as int, head1.len() as int) == value.name) by {
                assert((head0 + value.name + tail).subrange(
                    head0.len() as int,
                    head1.len() as int,
                ) =~= value.name);
            }
            assert(text[head1.len() as int] == '\r') by {
                assert((head1 + tail)[head1.len() as int] == tail[0]);
            }
            assert(line_ending(text, head1.len() as int) == Some(end)) by {
                lemma_line_ending_at(head1, rest);
            }
        },
    }
}

/// Whether a bandwidth line can hold a value: the type is letters and
/// digits, at least one.
pub open spec fn bandwidth_in_order(value: BandwidthView) -> bool {
    value.bwtype.len() > 0 && free_of(value.bwtype, Stop::NonAlphanumeric)
}

/// A bandwidth line that can hold its value is read back.
#[verifier::rlimit(30)]
pub proof fn lemma_bandwidth_reads_back(value: BandwidthView, rest: Seq<char>)
    requires
        bandwidth_in_order(value),
    ensures
        reads_back::<Bandwidth>(value, rest),
{
    let text = Bandwidth::formatted(value) + rest;
    let empty = Seq::<char>::empty();
    let number = decimal(value.bandwidth as nat);
    let tail = crlf() + rest;
    let tail1 = ":"@ + (number + tail);
    lemma_line_end_follows(rest);
    reveal_strlit(":");
    reveal_strlit("b=");
    reveal_strlit("X-");
    reveal_strlit("b=X-");
    assert(tail1[0] == ':');
    let head0 = if value.experimental {
        "b=X-"@
    } else {
        "b="@
    };
    let head1 = head0 + value.bwtype;
    let head2 = head1 + ":"@ + number;
    let end = (head2.len() + 2) as int;
    assert(Bandwidth::formatted(value).len() == end) by {
        assert(Bandwidth::formatted(value) == head2 + crlf());
    }
    assert(text == head2 + tail) by {
        lemma_regroup(head2, crlf(), rest);
    }
    assert(text == head1 + tail1) by {
        assert(((head1 + ":"@) + number) + tail =~= head1 + (":"@ + (number + tail)));
    }
    assert(text == head0 + (value.bwtype + tail1)) by {
        lemma_regroup(head0, value.bwtype, tail1);
    }
    assert(literal(text, 0, "b="@) == Some(2int)) by {
        assert(text.subrange(0, 2) =~= "b="@);
    }
    assert(literal(text, 2, "X-"@) is Some == value.experimental) by {
        if value.experimental {
            assert(text.subrange(2, 4) =~= "X-"@);
        } else {
            assert(!Stop::NonAlphanumeric.stops(value.bwtype[0]));
            assert(text[2] == value.bwtype[0]);
            if 4 <= text.len() {
                assert(text.subrange(2, 4)[0] == text[2]);
                assert("X-"@[0] == 'X');
                assert(text.subrange(2, 4)[1] == text[3]);
                if value.bwtype.len() >= 2 {
                    assert(text[3] == value.bwtype[1]);
                    assert(!Stop::NonAlphanumeric.stops(value.bwtype[1]));
                } else {
                    assert(text[3] == tail1[0]);
                }
            }
        }
    }
    assert(token(text, head0.len() as int, Stop::NonAlphanumeric) == Some(head1.len() as int))
        by {
        assert(Stop::NonAlphanumeric.stops(tail1[0]));
        lemma_scan_piece(head0, value.bwtype, tail1, Stop::NonAlphanumeric);
    }
    assert(text.subrange(head0.len() as int, head1.len() as int) == value.bwtype) by {
        assert((head0 + value.bwtype + tail1).subrange(head0.len() as int, head1.len() as int)
            =~= value.bwtype);
    }
    assert(literal(text, head1.len() as int, ":"@) == Some((head1.len() + 1) as int)) by {
        lemma_regroup(head1, ":"@, number + tail);
        lemma_literal_at(head1, ":"@, number + tail);
    }
    assert(parsed_number_field(text, (head1.len() + 1) as int) == Some(
        (value.bandwidth, head2.len() as int),
    )) by {
        lemma_number_field_piece(head1 + ":"@, value.bandwidth, tail);
    }
    assert(line_ending(text, head2.len() as int) == Some(end)) by {
        lemma_line_ending_at(head2, rest);
    }
}

/// Whether each text of a list is a field.
pub open spec fn fields(texts: Seq<Seq<char>>) -> bool {
    forall|i: int| 0 <= i < texts.len() ==> field_text(#[trigger] texts[i])
}

/// Fields with a space before each start with the first of them.
pub proof fn lemma_spaced_front(first: Seq<char>, others: Seq<Seq<char>>)
    ensures
        spaced(seq![first] + others) == " "@ + (first + spaced(others)),
    decreases others.len(),
{
    let all = seq![first] + others;
    if others.len() == 0 {
        assert(all.drop_last() =~= Seq::<Seq<char>>::empty());
        assert(all.last() == first);
        assert(spaced(all.drop_last()) =~= Seq::<char>::empty());
        assert(spaced(others) =~= Seq::<char>::empty());
        assert(spaced(all) =~= " "@ + (first + spaced(others)));
    } else {
        assert(all.drop_last() =~= seq![first] + others.drop_last());
        assert(all.last() == others.last());
        lemma_spaced_front(first, others.drop_last());
        assert(spaced(all) =~= " "@ + (first + spaced(others)));
    }
}

/// Fields that were written with a space before each are read back, where
/// what follows them is the end of the line.
#[verifier::rlimit(30)]
pub proof fn lemma_more_fields(before: Seq<char>, texts: Seq<Seq<char>>, rest: Seq<char>)
    requires
        fields(texts),
    ensures
        parsed_more::<String>(
            before + (spaced(texts) + (crlf() + rest)),
            before.len() as int,
            " "@,
        ) == (texts, (before.len() + spaced(texts).len()) as int),
        ends_field(spaced(texts) + (crlf() + rest)),
    decreases texts.len(),
{
    let tail = crlf() + rest;
    let text = before + (spaced(texts) + tail);
    reveal_strlit(" ");
    lemma_line_end_follows(rest);
    if texts.len() == 0 {
        assert(spaced(texts) + tail =~= tail);
        assert(text[before.len() as int] == tail[0]);
        assert(literal(text, before.len() as int, " "@) is None) by {
            if before.len() + 1 <= text.len() {
                assert(text.subrange(before.len() as int, (before.len() + 1) as int)[0] == '\r');
            }
        }
        assert(texts =~= Seq::<Seq<char>>::empty());
    } else {
        let first = texts[0];
        let others = texts.drop_first();
        assert(texts =~= seq![first] + others);
        lemma_spaced_front(first, others);
        assert(fields(others)) by {
            assert forall|i: int| 0 <= i < others.len() implies field_text(
                #[trigger] others[i],
            ) by {
                assert(others[i] == texts[i + 1]);
            }
        }
        let next = before + " "@ + first;
        lemma_more_fields(next, others, rest);
        let after = spaced(others) + tail;
        assert(text == next + after) by {
            assert((" "@ + (first + spaced(others))) + tail =~= " "@ + (first + after));
            lemma_regroup_spaced(before, first, after);
        }
        assert((spaced(texts) + tail)[0] == ' ');
        assert(literal(text, before.len() as int, " "@) == Some((before.len() + 1) as int)) by {
            lemma_regroup(before + " "@, first, after);
            lemma_regroup(before, " "@, first + after);
            lemma_literal_at(before, " "@, first + after);
        }
        assert(parsed_field(text, (before.len() + 1) as int) == Some((first, next.len() as int))) by {
            lemma_field_piece(before + " "@, first, after);
        }
    }
}

/// Fields that were written with a space before each, at least one, are
/// read back as a list with spaces between them, up to the end of the line.
pub proof fn lemma_separated_fields(before: Seq<char>, texts: Seq<Seq<char>>, rest: Seq<char>)
    requires
        texts.len() > 0,
        fields(texts),
    ensures
        ({
            let text = before + (spaced(texts) + (crlf() + rest));
            let from = before.len() as int;
            let end = (before.len() + spaced(texts).len()) as int;
            &&& literal(text, from, " "@) == Some(from + 1)
            &&& parsed_separated::<String>(text, from + 1, " "@) == Some((texts, end))
            &&& line_ending(text, end) == Some(end + 2)
            &&& ends_field(spaced(texts) + (crlf() + rest))
        }),
{
    let list = spaced(texts);
    let text = before + (list + (crlf() + rest));
    let from = before.len() as int;
    lemma_more_fields(before, texts, rest);
    // The list is not empty, so a space and a first field were read.
    assert(literal(text, from, " "@) == Some(from + 1)) by {
        reveal_strlit(" ");
        assert(parsed_more::<String>(text, from, " "@).0.len() > 0);
    }
    assert(line_ending(text, from + list.len()) == Some(from + list.len() + 2)) by {
        lemma_regroup(before, list, crlf() + rest);
        lemma_regroup(before + list, crlf(), rest);
        lemma_line_ending_at(before + list, rest);
    }
}

/// Whether a media line can hold a value: each of its texts is a field,
/// and it has at least one format.
pub open spec fn media_information_in_order(value: MediaInformationView) -> bool {
    &&& field_text(value.media_type)
    &&& field_text(value.port)
    &&& field_text(value.proto)
    &&& value.formats.len() > 0
    &&& fields(value.formats)
}

/// A media line that can hold its value is read back.
#[verifier::rlimit(30)]
pub proof fn lemma_media_information_reads_back(value: MediaInformationView, rest: Seq<char>)
    requires
        media_information_in_order(value),
    ensures
        reads_back::<MediaInformation>(value, rest),
{
    let text = MediaInformation::formatted(value) + rest;
    let empty = Seq::<char>::empty();
    let sp = " "@;
    let m = value.media_type;
    let p = value.port;
    let t = value.proto;
    let list = spaced(value.formats);
    let head0 = "m="@;
    let head1 = head0 + m;
    let head2 = head1 + sp + p;
    let head3 = head2 + sp + t;
    let tail3 = list + (crlf() + rest);
    let tail2 = sp + (t + tail3);
    let tail1 = sp + (p + tail2);
    let end = (head3.len() + list.len() + 2) as int;
    assert(MediaInformation::formatted(value).len() == end) by {
        assert(MediaInformation::formatted(value) == head3 + list + crlf());
    }
    assert(text == head3 + tail3) by {
        lemma_regroup(head3 + list, crlf(), rest);
        lemma_regroup(head3, list, crlf() + rest);
    }
    lemma_separated_fields(head3, value.formats, rest);
    assert(text == head2 + tail2) by {
        lemma_regroup_spaced(head2, t, tail3);
    }
    assert(text == head1 + tail1) by {
        lemma_regroup_spaced(head1, p, tail2);
    }
    assert(literal(text, 0, head0) == Some(head0.len() as int)) by {
        lemma_regroup(head0, m, tail1);
        assert(empty + head0 =~= head0);
        lemma_literal_at(empty, head0, m + tail1);
    }
    assert(parsed_field(text, head0.len() as int) == Some((m, head1.len() as int))) by {
        lemma_regroup_spaced(head1, p, tail2);
        lemma_field_piece(head0, m, tail1);
    }
    assert(parsed_next_field(text, head1.len() as int) == Some((p, head2.len() as int))) by {
        lemma_regroup_spaced(head2, t, tail3);
        lemma_next_field_piece(head1, p, tail2);
    }
    assert(parsed_next_field(text, head2.len() as int) == Some((t, head3.len() as int))) by {
        lemma_next_field_piece(head2, t, tail3);
    }
}

/// Whether each span of a list is one that is read back: above the least
/// value of `i64`.
pub open spec fn spans(seconds: Seq<i64>) -> bool {
    forall|i: int| 0 <= i < seconds.len() ==> (#[trigger] seconds[i]) > i64::MIN
}

/// Spans with a space before each start with the first of them.
pub proof fn lemma_spaced_seconds_front(first: i64, others: Seq<i64>)
    ensures
        spaced_seconds(seq![first] + others) == " "@ + (signed_decimal(first as int)
            + spaced_seconds(others)),
    decreases others.len(),
{
    let all = seq![first] + others;
    if others.len() == 0 {
        assert(all.drop_last() =~= Seq::<i64>::empty());
        assert(all.last() == first);
        assert(spaced_seconds(all.drop_last()) =~= Seq::<char>::empty());
        assert(spaced_seconds(others) =~= Seq::<char>::empty());
        assert(spaced_seconds(all) =~= " "@ + (signed_decimal(first as int) + spaced_seconds(
            others,
        )));
    } else {
        assert(all.drop_last() =~= seq![first] + others.drop_last());
        assert(all.last() == others.last());
        lemma_spaced_seconds_front(first, others.drop_last());
        assert(spaced_seconds(all) =~= " "@ + (signed_decimal(first as int) + spaced_seconds(
            others,
        )));
    }
}

/// Spans that were written with a space before each are read back, where
/// what follows them is the end of the line.
#[verifier::rlimit(30)]
pub proof fn lemma_more_spans(before: Seq<char>, seconds: Seq<i64>, rest: Seq<char>)
    requires
        spans(seconds),
    ensures
        parsed_more::<Duration>(
            before + (spaced_seconds(seconds) + (crlf() + rest)),
            before.len() as int,
            " "@,
        ) == (seconds, (before.len() + spaced_seconds(seconds).len()) as int),
        ends_seconds(spaced_seconds(seconds) + (crlf() + rest)),
    decreases seconds.len(),
{
    let tail = crlf() + rest;
    let text = before + (spaced_seconds(seconds) + tail);
    reveal_strlit(" ");
    lemma_line_end_follows(rest);
    if seconds.len() == 0 {
        assert(spaced_seconds(seconds) + tail =~= tail);
        assert(text[before.len() as int] == tail[0]);
        assert(literal(text, before.len() as int, " "@) is None) by {
            if before.len() + 1 <= text.len() {
                assert(text.subrange(before.len() as int, (before.len() + 1) as int)[0]
                    == '\r');
            }
        }
        assert(seconds =~= Seq::<i64>::empty());
    } else {
        let first = seconds[0];
        let piece = signed_decimal(first as int);
        let others = seconds.drop_first();
        assert(seconds =~= seq![first] + others);
        lemma_spaced_seconds_front(first, others);
        assert(spans(others)) by {
            assert forall|i: int| 0 <= i < others.len() implies (#[trigger] others[i])
                > i64::MIN by {
                assert(others[i] == seconds[i + 1]);
            }
        }
        let next = before + " "@ + piece;
        lemma_more_spans(next, others, rest);
        let after = spaced_seconds(others) + tail;
        assert(text == next + after) by {
            assert((" "@ + (piece + spaced_seconds(others))) + tail =~= " "@ + (piece + after));
            lemma_regroup_spaced(before, piece, after);
        }
        assert((spaced_seconds(seconds) + tail)[0] == ' ');
        assert(literal(text, before.len() as int, " "@) == Some((before.len() + 1) as int)) by {
            lemma_regroup(before + " "@, piece, after);
            lemma_regroup(before, " "@, piece + after);
            lemma_literal_at(before, " "@, piece + after);
        }
        assert(Duration::parsed(text, (before.len() + 1) as int) == Some(
            (first, next.len() as int),
        )) by {
            lemma_duration_piece(before + " "@, first, after);
        }
        lemma_signed_decimal_len(first as int);
    }
}

/// A number that was written with its sign is at least one character long.
pub proof fn lemma_signed_decimal_len(n: int)
    ensures
        signed_decimal(n).len() >= 1,
{
    if n < 0 {
        lemma_decimal((-n) as nat);
    } else {
        lemma_decimal(n as nat);
    }
}

/// Spans that were written with a space before each, at least one, are
/// read back as a list with spaces between them, up to the end of the line.
pub proof fn lemma_separated_spans(before: Seq<char>, seconds: Seq<i64>, rest: Seq<char>)
    requires
        seconds.len() > 0,
        spans(seconds),
    ensures
        ({
            let text = before + (spaced_seconds(seconds) + (crlf() + rest));
            let from = before.len() as int;
            let end = (before.len() + spaced_seconds(seconds).len()) as int;
            &&& literal(text, from, " "@) == Some(from + 1)
            &&& parsed_separated::<Duration>(text, from + 1, " "@) == Some((seconds, end))
            &&& line_ending(text, end) == Some(end + 2)
            &&& ends_seconds(spaced_seconds(seconds) + (crlf() + rest))
        }),
{
    let list = spaced_seconds(seconds);
    let text = before + (list + (crlf() + rest));
    let from = before.len() as int;
    lemma_more_spans(before, seconds, rest);
    // The list is not empty, so a space and a first span were read.
    assert(literal(text, from, " "@) == Some(from + 1)) by {
        reveal_strlit(" ");
        assert(parsed_more::<Duration>(text, from, " "@).0.len() > 0);
    }
    assert(line_ending(text, from + list.len()) == Some(from + list.len() + 2)) by {
        lemma_regroup(before, list, crlf() + rest);
        lemma_regroup(before + list, crlf(), rest);
        lemma_line_ending_at(before + list, rest);
    }
}

/// Whether a repeat line can hold a value that is read back: it has at
/// least one offset, and no span is the least value of `i64`.
pub open spec fn repeat_times_in_order(value: RepeatTimesView) -> bool {
    &&& value.interval > i64::MIN
    &&& value.duration > i64::MIN
    &&& value.offsets.len() > 0
    &&& spans(value.offsets)
}

/// A repeat line that can hold its value is read back.
#[verifier::rlimit(30)]
pub proof fn lemma_repeat_times_reads_back(value: RepeatTimesView, rest: Seq<char>)
    requires
        repeat_times_in_order(value),
    ensures
        reads_back::<RepeatTimes>(value, rest),
{
    let text = RepeatTimes::formatted(value) + rest;
    let empty = Seq::<char>::empty();
    let sp = " "@;
    let i = signed_decimal(value.interval as int);
    let d = signed_decimal(value.duration as int);
    let list = spaced_seconds(value.offsets);
    let head0 = "r="@;
    let head1 = head0 + i;
    let head2 = head1 + sp + d;
    let tail2 = list + (crlf() + rest);
    let tail1 = sp + (d + tail2);
    let end = (head2.len() + list.len() + 2) as int;
    assert(RepeatTimes::formatted(value).len() == end) by {
        assert(RepeatTimes::formatted(value) == head2 + list + crlf());
    }
    assert(text == head2 + tail2) by {
        lemma_regroup(head2 + list, crlf(), rest);
        lemma_regroup(head2, list, crlf() + rest);
    }
    lemma_separated_spans(head2, value.offsets, rest);
    assert(text == head1 + tail1) by {
        lemma_regroup_spaced(head1, d, tail2);
    }
    assert(literal(text, 0, head0) == Some(head0.len() as int)) by {
        lemma_regroup(head0, i, tail1);
        assert(empty + head0 =~= head0);
        lemma_literal_at(empty, head0, i + tail1);
    }
    assert(Duration::parsed(text, head0.len() as int) == Some(
        (value.interval, head1.len() as int),
    )) by {
        lemma_regroup_spaced(head1, d, tail2);
        lemma_duration_piece(head0, value.interval, tail1);
    }
    assert(literal(text, head1.len() as int, sp) == Some((head1.len() + 1) as int)) by {
        lemma_regroup_spaced(head1, d, tail2);
        lemma_regroup(head1, sp, d + tail2);
        lemma_literal_at(head1, sp, d + tail2);
    }
    assert(Duration::parsed(text, (head1.len() + 1) as int) == Some(
        (value.duration, head2.len() as int),
    )) by {
        lemma_regroup_spaced(head1, d, tail2);
        lemma_duration_piece(head1 + sp, value.duration, tail2);
    }
}

/// Whether each adjustment of a list is one that is read back: its offset
/// is above the least value of `i64`.
pub open spec fn zones(list: Seq<TimeZoneView>) -> bool {
    forall|i: int| 0 <= i < list.len() ==> (#[trigger] list[i]).offset > i64::MIN
}

/// Adjustments, with a space before each.
pub open spec fn spaced_zones(list: Seq<TimeZoneView>) -> Seq<char>
    decreases list.len(),
{
    if list.len() == 0 {
        Seq::empty()
    } else {
        spaced_zones(list.drop_last()) + " "@ + formatted_time_zone(list.last())
    }
}

/// Adjustments with a space before each start with the first of them.
pub proof fn lemma_spaced_zones_front(first: TimeZoneView, others: Seq<TimeZoneView>)
    ensures
        spaced_zones(seq![first] + others) == " "@ + (formatted_time_zone(first) + spaced_zones(
            others,
        )),
    decreases others.len(),
{
    let all = seq![first] + others;
    if others.len() == 0 {
        assert(all.drop_last() =~= Seq::<TimeZoneView>::empty());
        assert(all.last() == first);
        assert(spaced_zones(all.drop_last()) =~= Seq::<char>::empty());
        assert(spaced_zones(others) =~= Seq::<char>::empty());
        assert(spaced_zones(all) =~= " "@ + (formatted_time_zone(first) + spaced_zones(others)));
    } else {
        assert(all.drop_last() =~= seq![first] + others.drop_last());
        assert(all.last() == others.last());
        lemma_spaced_zones_front(first, others.drop_last());
        assert(spaced_zones(all) =~= " "@ + (formatted_time_zone(first) + spaced_zones(others)));
    }
}

/// Adjustments with a space between them are the first, then the others
/// with a space before each.
pub proof fn lemma_time_zones_front(first: TimeZoneView, others: Seq<TimeZoneView>)
    ensures
        formatted_time_zones(seq![first] + others) == formatted_time_zone(first) + spaced_zones(
            others,
        ),
    decreases others.len(),
{
    let all = seq![first] + others;
    if others.len() == 0 {
        assert(all.len() == 1);
        assert(all[0] == first);
        assert(spaced_zones(others) =~= Seq::<char>::empty());
        assert(formatted_time_zones(all) =~= formatted_time_zone(first) + spaced_zones(others));
    } else {
        assert(all.drop_last() =~= seq![first] + others.drop_last());
        assert(all.last() == others.last());
        lemma_time_zones_front(first, others.drop_last());
        assert(formatted_time_zones(all) =~= formatted_time_zone(first) + spaced_zones(others));
    }
}

/// An adjustment that was written is read back, where what follows it ends
/// its offset.
pub proof fn lemma_time_zone_piece(before: Seq<char>, zone: TimeZoneView, after: Seq<char>)
    requires
        ends_seconds(after),
        zone.offset > i64::MIN,
    ensures
        TimeZone::parsed(before + formatted_time_zone(zone) + after, before.len() as int)
            == Some((zone, (before.len() + formatted_time_zone(zone).len()) as int)),
        formatted_time_zone(zone).len() >= 1,
{
    let time = decimal(zone.adjustment_time as nat);
    let offset = signed_decimal(zone.offset as int);
    let text = before + formatted_time_zone(zone) + after;
    let tail = " "@ + (offset + after);
    lemma_decimal(zone.adjustment_time as nat);
    assert(text == (before + time) + tail) by {
        assert(before + (time + " "@ + offset) + after =~= (before + time) + (" "@ + (offset
            + after)));
    }
    assert(ends_seconds(tail)) by {
        lemma_regroup_spaced(before + time, offset, after);
    }
    assert(Instant::parsed(text, before.len() as int) == Some(
        (zone.adjustment_time, (before.len() + time.len()) as int),
    )) by {
        lemma_instant_piece(before, zone.adjustment_time, tail);
    }
    assert(literal(text, (before.len() + time.len()) as int, " "@) == Some(
        (before.len() + time.len() + 1) as int,
    )) by {
        lemma_regroup_spaced(before + time, offset, after);
        lemma_regroup(before + time, " "@, offset + after);
        lemma_literal_at(before + time, " "@, offset + after);
    }
    assert(Duration::parsed(text, (before.len() + time.len() + 1) as int) == Some(
        (zone.offset, (before.len() + time.len() + 1 + offset.len()) as int),
    )) by {
        lemma_regroup_spaced(before + time, offset, after);
        lemma_duration_piece(before + time + " "@, zone.offset, after);
    }
    assert(formatted_time_zone(zone).len() == time.len() + 1 + offset.len()) by {
        reveal_strlit(" ");
    }
}

/// Adjustments that were written with a space before each are read back,
/// where what follows them is the end of the line.
#[verifier::rlimit(30)]
pub proof fn lemma_more_zones(before: Seq<char>, list: Seq<TimeZoneView>, rest: Seq<char>)
    requires
        zones(list),
    ensures
        parsed_more::<TimeZone>(
            before + (spaced_zones(list) + (crlf() + rest)),
            before.len() as int,
            " "@,
        ) == (list, (before.len() + spaced_zones(list).len()) as int),
        ends_seconds(spaced_zones(list) + (crlf() + rest)),
    decreases list.len(),
{
    let tail = crlf() + rest;
    let text = before + (spaced_zones(list) + tail);
    lemma_line_end_follows(rest);
    if list.len() == 0 {
        assert(spaced_zones(list) + tail =~= tail);
        assert(literal(text, before.len() as int, " "@) is None) by {
            reveal_strlit(" ");
            assert(text[before.len() as int] == tail[0]);
            if before.len() + 1 <= text.len() {
                assert(text.subrange(before.len() as int, (before.len() + 1) as int)[0]
                    == '\r');
            }
        }
        assert(list =~= Seq::<TimeZoneView>::empty());
    } else {
        let first = list[0];
        let piece = formatted_time_zone(first);
        let others = list.drop_first();
        assert(list =~= seq![first] + others);
        lemma_spaced_zones_front(first, others);
        assert(zones(others)) by {
            assert forall|i: int| 0 <= i < others.len() implies (#[trigger] others[i]).offset
                > i64::MIN by {
                assert(others[i] == list[i + 1]);
            }
        }
        let next = before + " "@ + piece;
        lemma_more_zones(next, others, rest);
        let after = spaced_zones(others) + tail;
        assert(text == next + after) by {
            assert((" "@ + (piece + spaced_zones(others))) + tail =~= " "@ + (piece + after));
            lemma_regroup_spaced(before, piece, after);
        }
        assert(ends_seconds(spaced_zones(list) + tail)) by {
            reveal_strlit(" ");
            assert((spaced_zones(list) + tail)[0] == ' ');
        }
        assert(literal(text, before.len() as int, " "@) == Some((before.len() + 1) as int)) by {
            reveal_strlit(" ");
            lemma_regroup(before + " "@, piece, after);
            lemma_regroup(before, " "@, piece + after);
            lemma_literal_at(before, " "@, piece + after);
        }
        assert(TimeZone::parsed(text, (before.len() + 1) as int) == Some(
            (first, next.len() as int),
        ) && next.len() > before.len()) by {
            reveal_strlit(" ");
            lemma_time_zone_piece(before + " "@, first, after);
        }
    }
}

/// Whether a time zone line can hold a value that is read back: it has at
/// least one adjustment, and no offset is the least value of `i64`.
pub open spec fn time_zones_in_order(value: Seq<TimeZoneView>) -> bool {
    value.len() > 0 && zones(value)
}

/// A time zone line that can hold its value is read back.
#[verifier::rlimit(30)]
pub proof fn lemma_time_zones_reads_back(value: Seq<TimeZoneView>, rest: Seq<char>)
    requires
        time_zones_in_order(value),
    ensures
        reads_back::<TimeZones>(value, rest),
{
    let text = TimeZones::formatted(value) + rest;
    let empty = Seq::<char>::empty();
    let first = value[0];
    let piece = formatted_time_zone(first);
    let others = value.drop_first();
    let head0 = "z="@;
    let head1 = head0 + piece;
    let list = spaced_zones(others);
    let tail1 = list + (crlf() + rest);
    let end = (head1.len() + list.len() + 2) as int;
    assert(value =~= seq![first] + others);
    lemma_time_zones_front(first, others);
    assert(zones(others)) by {
        assert forall|i: int| 0 <= i < others.len() implies (#[trigger] others[i]).offset
            > i64::MIN by {
            assert(others[i] == value[i + 1]);
        }
    }
    assert(TimeZones::formatted(value).len() == end) by {
        assert(TimeZones::formatted(value) =~= head1 + list + crlf());
    }
    assert(text == head1 + tail1) by {
        assert((head0 + (piece + list) + crlf()) + rest =~= (head0 + piece) + (list + (crlf()
            + rest)));
    }
    lemma_more_zones(head1, others, rest);
    assert(literal(text, 0, head0) == Some(head0.len() as int)) by {
        lemma_regroup(head0, piece, tail1);
        assert(empty + head0 =~= head0);
        lemma_literal_at(empty, head0, piece + tail1);
    }
    assert(TimeZone::parsed(text, head0.len() as int) == Some((first, head1.len() as int))) by {
        lemma_time_zone_piece(head0, first, tail1);
    }
    assert(line_ending(text, end - 2) == Some(end)) by {
        lemma_regroup(head1, list, crlf() + rest);
        lemma_regroup(head1 + list, crlf(), rest);
        lemma_line_ending_at(head1 + list, rest);
    }
}

/// Whether a key line can hold a value that is read back: a key that is
/// given as it is or in base64 is the text of a line. A key that is found
/// at a resource identifier is left out: what is read back of it is up to
/// the reading and writing of identifiers.
pub open spec fn encryption_key_in_order(value: EncryptionKeyView) -> bool {
    match value {
        EncryptionKeyView::Clear(key) => line_text(key),
        EncryptionKeyView::Base64(key) => line_text(key),
        EncryptionKeyView::Uri(_) => false,
        EncryptionKeyView::Prompt => true,
    }
}

/// A method with its key is read back, where the end of the line follows.
pub proof fn lemma_keyed_piece(method: Seq<char>, key: Seq<char>, rest: Seq<char>)
    requires
        line_text(key),
    ensures
        parsed_keyed("k="@ + method + key + crlf() + rest, "k="@.len() as int, method) == Some(
            (key, ("k="@ + method + key).len() as int),
        ),
{
    let head = "k="@ + method;
    let tail = crlf() + rest;
    let text = "k="@ + method + key + crlf() + rest;
    lemma_line_end_follows(rest);
    assert(text == head + key + tail) by {
        lemma_regroup(head + key, crlf(), rest);
    }
    assert(literal(text, "k="@.len() as int, method) == Some(head.len() as int)) by {
        lemma_regroup(head, key, tail);
        lemma_literal_at("k="@, method, key + tail);
    }
    assert(token(text, head.len() as int, Stop::Line) == Some((head + key).len() as int)) by {
        lemma_scan_piece(head, key, tail, Stop::Line);
    }
    assert(text.subrange(head.len() as int, (head + key).len() as int) =~= key);
}

/// A key line that can hold its value is read back.
#[verifier::rlimit(30)]
pub proof fn lemma_encryption_key_reads_back(value: EncryptionKeyView, rest: Seq<char>)
    requires
        encryption_key_in_order(value),
    ensures
        reads_back::<EncryptionKey>(value, rest),
{
    let text = EncryptionKey::formatted(value) + rest;
    reveal_strlit("k=");
    reveal_strlit("clear:");
    reveal_strlit("base64:");
    reveal_strlit("uri:");
    reveal_strlit("prompt");
    reveal_strlit("k=clear:");
    reveal_strlit("k=base64:");
    reveal_strlit("k=prompt");
    assert(literal(text, 0, "k="@) == Some(2int)) by {
        assert(text.subrange(0, 2) =~= "k="@);
    }
    match value {
        EncryptionKeyView::Clear(key) => {
            assert("k=clear:"@ =~= "k="@ + "clear:"@);
            lemma_keyed_piece("clear:"@, key, rest);
            lemma_line_ending_at("k="@ + "clear:"@ + key, rest);
        },
        EncryptionKeyView::Base64(key) => {
            assert("k=base64:"@ =~= "k="@ + "base64:"@);
            lemma_keyed_piece("base64:"@, key, rest);
            assert(text[2] == 'b');
            assert(literal(text, 2, "clear:"@) is None) by {
                if 8 <= text.len() {
                    assert(text.subrange(2, 8)[0] == text[2]);
                }
            }
            lemma_line_ending_at("k="@ + "base64:"@ + key, rest);
        },
        EncryptionKeyView::Uri(_) => {},
        EncryptionKeyView::Prompt => {
            assert(text[2] == 'p');
            assert(literal(text, 2, "clear:"@) is None) by {
                if 8 <= text.len() {
                    assert(text.subrange(2, 8)[0] == text[2]);
                }
            }
            assert(literal(text, 2, "base64:"@) is None) by {
                if 9 <= text.len() {
                    assert(text.subrange(2, 9)[0] == text[2]);
                }
            }
            assert(literal(text, 2, "uri:"@) is None) by {
                if 6 <= text.len() {
                    assert(text.subrange(2, 6)[0] == text[2]);
                }
            }
            assert(literal(text, 2, "prompt"@) == Some(8int)) by {
                assert(text.subrange(2, 8) =~= "prompt"@);
            }
            assert("k=prompt"@ =~= "k="@ + "prompt"@);
            lemma_line_ending_at("k="@ + "prompt"@, rest);
        },
    }
}

} // verus!
