//! Events as lines of text.

use vstd::prelude::*;

use crate::telemetry_schema::{Event, ResyncReason};

verus! {

/// How loud a line is.
#[derive(Debug, Clone, Copy, PartialEq, Eq, Structural)]
pub enum Level {
    Debug,
    Info,
    Warn,
}

/// An upper case hexadecimal digit.
pub open spec fn hex_text(n: u8) -> Seq<char> {
    match n {
        0 => "0"@,
        1 => "1"@,
        2 => "2"@,
        3 => "3"@,
        4 => "4"@,
        5 => "5"@,
        6 => "6"@,
        7 => "7"@,
        8 => "8"@,
        9 => "9"@,
        10 => "A"@,
        11 => "B"@,
        12 => "C"@,
        13 => "D"@,
        14 => "E"@,
        _ => "F"@,
    }
}

/// The lowest `digits` hexadecimal digits of a number.
pub open spec fn hex_padded(n: int, digits: nat) -> Seq<char>
    decreases digits,
{
    if digits == 0 {
        Seq::empty()
    } else {
        hex_padded(n / 16, (digits - 1) as nat) + hex_text((n % 16) as u8)
    }
}

/// A number in decimal, without leading zeros.
pub open spec fn decimal(n: nat) -> Seq<char>
    decreases n,
{
    if n < 10 {
        hex_text(n as u8)
    } else {
        decimal(n / 10) + hex_text((n % 10) as u8)
    }
}

/// The name of a reason.
pub open spec fn reason_name(reason: ResyncReason) -> Seq<char> {
    match reason {
        ResyncReason::PreSohByte => "PreSohByte"@,
        ResyncReason::PayloadTooLong => "PayloadTooLong"@,
        ResyncReason::BadCrc => "BadCrc"@,
        ResyncReason::BadEtx => "BadEtx"@,
        ResyncReason::DecodeError => "DecodeError"@,
    }
}

/// How loud the line of an event is.
pub open spec fn level_of(event: Event) -> Level {
    match event {
        Event::Boot { .. } => Level::Info,
        Event::DownloadBegin { .. } => Level::Info,
        Event::BlockAck { .. } => Level::Debug,
        Event::DownloadComplete { crc_match, .. } => if crc_match {
            Level::Info
        } else {
            Level::Warn
        },
        _ => Level::Warn,
    }
}

/// The line of an event.
pub open spec fn text_of(event: Event) -> Seq<char> {
    match event {
        Event::Boot { fw_version, phase } => "vintage-kvm firmware "@ + fw_version@ + "; phase="@
            + decimal(phase as nat),
        Event::DownloadBegin { total_blocks, expected_crc32, size_bytes } =>
            "LPT: Stage 2 download begin (size="@ + decimal(size_bytes as nat) + " B, CRC-32=0x"@
            + hex_padded(expected_crc32 as int, 8) + ", "@ + decimal(total_blocks as nat)
            + " blocks)"@,
        Event::BlockAck { block_no, running_crc32 } => "LPT blk "@ + decimal(block_no as nat)
            + " ACK; running CRC-32 = 0x"@ + hex_padded(running_crc32 as int, 8),
        Event::DownloadComplete { crc_match, final_crc32 } => if crc_match {
            "LPT: Stage 2 download OK — CRC match (0x"@ + hex_padded(final_crc32 as int, 8) + ")"@
        } else {
            "LPT: Stage 2 download FAIL — CRC mismatch (got 0x"@ + hex_padded(
                final_crc32 as int,
                8,
            ) + ")"@
        },
        Event::SeqGap { expected, got, cmd } => "seq gap: expected "@ + decimal(expected as nat)
            + ", got "@ + decimal(got as nat) + " (cmd 0x"@ + hex_padded(cmd as int, 2) + ")"@,
        Event::UnknownCmd { cmd } => "unknown cmd 0x"@ + hex_padded(cmd as int, 2),
        Event::PacketStreamResync { reason } => "packet stream resync: "@ + reason_name(reason),
        Event::EncodeError => "encode failed"@,
    }
}

/// Appends a digit.
fn put_digit(out: &mut String, n: u8)
    requires
        n < 16,
    ensures
        final(out)@ == old(out)@ + hex_text(n),
{
    match n {
        0 => out.append("0"),
        1 => out.append("1"),
        2 => out.append("2"),
        3 => out.append("3"),
        4 => out.append("4"),
        5 => out.append("5"),
        6 => out.append("6"),
        7 => out.append("7"),
        8 => out.append("8"),
        9 => out.append("9"),
        10 => out.append("A"),
        11 => out.append("B"),
        12 => out.append("C"),
        13 => out.append("D"),
        14 => out.append("E"),
        _ => out.append("F"),
    }
}

/// Appends the lowest `digits` hexadecimal digits of a number.
fn put_hex(out: &mut String, n: u32, digits: u8)
    ensures
        final(out)@ == old(out)@ + hex_padded(n as int, digits as nat),
    decreases digits,
{
    if digits == 0 {
        assert(old(out)@ + Seq::<char>::empty() =~= old(out)@);
        return;
    }
    put_hex(out, n / 16, digits - 1);
    put_digit(out, (n % 16) as u8);
    assert(out@ =~= old(out)@ + hex_padded(n as int, digits as nat));
}

/// Appends a number in decimal.
fn put_decimal(out: &mut String, n: u32)
    ensures
        final(out)@ == old(out)@ + decimal(n as nat),
    decreases n,
{
    if n >= 10 {
        put_decimal(out, n / 10);
    }
    put_digit(out, (n % 10) as u8);
    assert(out@ =~= old(out)@ + decimal(n as nat));
}

/// The name of a reason.
fn name_of(reason: ResyncReason) -> (r: &'static str)
    ensures
        r@ == reason_name(reason),
{
    match reason {
        ResyncReason::PreSohByte => "PreSohByte",
        ResyncReason::PayloadTooLong => "PayloadTooLong",
        ResyncReason::BadCrc => "BadCrc",
        ResyncReason::BadEtx => "BadEtx",
        ResyncReason::DecodeError => "DecodeError",
    }
}

/// The line of an event, and how loud it is.
pub fn render(event: &Event) -> (r: (Level, String))
    ensures
        r.0 == level_of(*event),
        r.1@ == text_of(*event),
{
    let mut out: String = String::new();
    let level: Level = match event {
        Event::Boot { fw_version, phase } => {
            out.append("vintage-kvm firmware ");
            out.append(fw_version);
            out.append("; phase=");
            put_decimal(&mut out, *phase as u32);
            Level::Info
        },
        Event::DownloadBegin { total_blocks, expected_crc32, size_bytes } => {
            out.append("LPT: Stage 2 download begin (size=");
            put_decimal(&mut out, *size_bytes);
            out.append(" B, CRC-32=0x");
            put_hex(&mut out, *expected_crc32, 8);
            out.append(", ");
            put_decimal(&mut out, *total_blocks as u32);
            out.append(" blocks)");
            Level::Info
        },
        Event::BlockAck { block_no, running_crc32 } => {
            out.append("LPT blk ");
            put_decimal(&mut out, *block_no as u32);
            out.append(" ACK; running CRC-32 = 0x");
            put_hex(&mut out, *running_crc32, 8);
            Level::Debug
        },
        Event::DownloadComplete { crc_match, final_crc32 } => {
            if *crc_match {
                out.append("LPT: Stage 2 download OK — CRC match (0x");
                put_hex(&mut out, *final_crc32, 8);
                out.append(")");
                Level::Info
            } else {
                out.append("LPT: Stage 2 download FAIL — CRC mismatch (got 0x");
                put_hex(&mut out, *final_crc32, 8);
                out.append(")");
                Level::Warn
            }
        },
        Event::SeqGap { expected, got, cmd } => {
            out.append("seq gap: expected ");
            put_decimal(&mut out, *expected as u32);
            out.append(", got ");
            put_decimal(&mut out, *got as u32);
            out.append(" (cmd 0x");
            put_hex(&mut out, *cmd as u32, 2);
            out.append(")");
            Level::Warn
        },
        Event::UnknownCmd { cmd } => {
            out.append("unknown cmd 0x");
            put_hex(&mut out, *cmd as u32, 2);
            Level::Warn
        },
        Event::PacketStreamResync { reason } => {
            out.append("packet stream resync: ");
            out.append(name_of(*reason));
            Level::Warn
        },
        Event::EncodeError => {
            out.append("encode failed");
            Level::Warn
        },
    };
    assert(out@ =~= text_of(*event));
    (level, out)
}

/// The number that decimal digits say.
pub open spec fn decimal_value(text: Seq<char>) -> int
    decreases text.len(),
{
    if text.len() == 0 {
        0
    } else {
        10 * decimal_value(text.drop_last()) + (text.last() as int - '0' as int)
    }
}

/// The value of an upper case hexadecimal digit.
pub open spec fn hex_value(c: char) -> int {
    if '0' <= c <= '9' {
        c as int - '0' as int
    } else {
        c as int - 'A' as int + 10
    }
}

/// The number that hexadecimal digits say.
pub open spec fn hex_number(text: Seq<char>) -> int
    decreases text.len(),
{
    if text.len() == 0 {
        0
    } else {
        16 * hex_number(text.drop_last()) + hex_value(text.last())
    }
}

proof fn lemma_digit(n: u8)
    requires
        n < 16,
    ensures
        hex_text(n).len() == 1,
        n < 10 ==> hex_text(n)[0] as int == '0' as int + n,
        n >= 10 ==> hex_text(n)[0] as int == 'A' as int + n - 10,
{
    reveal_strlit("0");
    reveal_strlit("1");
    reveal_strlit("2");
    reveal_strlit("3");
    reveal_strlit("4");
    reveal_strlit("5");
    reveal_strlit("6");
    reveal_strlit("7");
    reveal_strlit("8");
    reveal_strlit("9");
    reveal_strlit("A");
    reveal_strlit("B");
    reveal_strlit("C");
    reveal_strlit("D");
    reveal_strlit("E");
    reveal_strlit("F");
}

/// A number in decimal reads as that number. It consists of digits only, and the first
/// of them is 0 only in the number 0.
pub proof fn law_decimal_is_read(n: nat)
    ensures
        decimal_value(decimal(n)) == n,
        decimal(n).len() >= 1,
        n > 0 ==> decimal(n)[0] != '0',
        forall|i: int| 0 <= i < decimal(n).len() ==> '0' <= #[trigger] decimal(n)[i] <= '9',
    decreases n,
{
    let text = decimal(n);
    if n < 10 {
        lemma_digit(n as u8);
        assert(text.drop_last() =~= Seq::<char>::empty());
        assert(decimal_value(Seq::<char>::empty()) == 0);
    } else {
        law_decimal_is_read(n / 10);
        lemma_digit((n % 10) as u8);
        assert(text.drop_last() =~= decimal(n / 10));
        assert forall|i: int| 0 <= i < text.len() implies '0' <= #[trigger] text[i] <= '9' by {
            if i < text.len() - 1 {
                assert(text[i] == decimal(n / 10)[i]);
            }
        }
        assert(text[0] == decimal(n / 10)[0]);
    }
}

/// Hexadecimal digits are as many as asked for, and read as the number if it fits into
/// them.
pub proof fn law_hex_is_read(n: int, digits: nat)
    requires
        0 <= n < vstd::arithmetic::power::pow(16, digits),
    ensures
        hex_number(hex_padded(n, digits)) == n,
        hex_padded(n, digits).len() == digits,
        forall|i: int|
            0 <= i < digits ==> {
                let c = #[trigger] hex_padded(n, digits)[i];
                '0' <= c <= '9' || 'A' <= c <= 'F'
            },
    decreases digits,
{
    vstd::arithmetic::power::lemma_pow0(16);
    let text = hex_padded(n, digits);
    if digits > 0 {
        let fewer = (digits - 1) as nat;
        reveal(vstd::arithmetic::power::pow);
        assert(vstd::arithmetic::power::pow(16, digits) == 16 * vstd::arithmetic::power::pow(
            16,
            fewer,
        ));
        law_hex_is_read(n / 16, fewer);
        lemma_digit((n % 16) as u8);
        assert(text.drop_last() =~= hex_padded(n / 16, fewer));
        assert forall|i: int| 0 <= i < digits implies {
            let c = #[trigger] text[i];
            '0' <= c <= '9' || 'A' <= c <= 'F'
        } by {
            if i < digits - 1 {
                assert(text[i] == hex_padded(n / 16, fewer)[i]);
            }
        }
    }
}

/// What is out of order is a warning: a sequence gap, an unknown command, lost bytes, a
/// failed encoding and a download whose CRC is wrong. Acknowledged blocks are for
/// debugging, and the rest is information.
pub proof fn law_level_by_event(event: Event, line: (Level, String))
    requires
        call_ensures(render, (&event,), line),
    ensures
        line.0 == Level::Debug <==> event is BlockAck,
        line.0 == Level::Warn <==> event is SeqGap || event is UnknownCmd || event
            is PacketStreamResync || event is EncodeError || (event is DownloadComplete
            && !event->crc_match),
        line.0 == Level::Info <==> event is Boot || event is DownloadBegin || (event
            is DownloadComplete && event->crc_match),
{
}

/// The lines hold the numbers of their events, each behind its own words: CRCs in eight
/// hexadecimal digits, commands in two, and the rest in decimal.
pub proof fn law_line_holds_numbers(event: Event, line: (Level, String))
    requires
        call_ensures(render, (&event,), line),
    ensures
        ({
            let text = line.1@;
            match event {
                Event::Boot { fw_version, phase } => text == "vintage-kvm firmware "@ + fw_version@
                    + "; phase="@ + decimal(phase as nat),
                Event::DownloadBegin { total_blocks, expected_crc32, size_bytes } => text
                    == "LPT: Stage 2 download begin (size="@ + decimal(size_bytes as nat)
                    + " B, CRC-32=0x"@ + hex_padded(expected_crc32 as int, 8) + ", "@ + decimal(
                    total_blocks as nat,
                ) + " blocks)"@,
                Event::BlockAck { block_no, running_crc32 } => text == "LPT blk "@ + decimal(
                    block_no as nat,
                ) + " ACK; running CRC-32 = 0x"@ + hex_padded(running_crc32 as int, 8),
                Event::DownloadComplete { crc_match, final_crc32 } => {
                    &&& crc_match ==> text == "LPT: Stage 2 download OK — CRC match (0x"@
                        + hex_padded(final_crc32 as int, 8) + ")"@
                    &&& !crc_match ==> text
                        == "LPT: Stage 2 download FAIL — CRC mismatch (got 0x"@ + hex_padded(
                        final_crc32 as int,
                        8,
                    ) + ")"@
                },
                Event::SeqGap { expected, got, cmd } => text == "seq gap: expected "@ + decimal(
                    expected as nat,
                ) + ", got "@ + decimal(got as nat) + " (cmd 0x"@ + hex_padded(cmd as int, 2)
                    + ")"@,
                Event::UnknownCmd { cmd } => text == "unknown cmd 0x"@ + hex_padded(cmd as int, 2),
                Event::PacketStreamResync { reason } => {
                    &&& reason == ResyncReason::PreSohByte ==> text
                        == "packet stream resync: "@ + "PreSohByte"@
                    &&& reason == ResyncReason::PayloadTooLong ==> text
                        == "packet stream resync: "@ + "PayloadTooLong"@
                    &&& reason == ResyncReason::BadCrc ==> text == "packet stream resync: "@
                        + "BadCrc"@
                    &&& reason == ResyncReason::BadEtx ==> text == "packet stream resync: "@
                        + "BadEtx"@
                    &&& reason == ResyncReason::DecodeError ==> text
                        == "packet stream resync: "@ + "DecodeError"@
                },
                Event::EncodeError => text == "encode failed"@,
            }
        }),
{
}

} // verus!
