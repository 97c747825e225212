//! The polling/transfer engine's decision logic.
//!
//! The engine drives read and write sweeps over slave addresses and
//! reference ranges.  Everything that can be decided without touching a
//! transport is here: how large each read must be, which requests a
//! sweep issues, how a successful response decodes into displayed
//! lines, how each outcome lands in the transfer statistics, and what a
//! validated write payload contains.  The caller performs the transport
//! calls, classifies each into a `RequestOutcome`, and hands results
//! back in.
//!
//! Failure policy: a per-request protocol error or timeout never aborts
//! a sweep; only connection establishment failure is fatal, and only in
//! single-pass mode.

use vstd::prelude::*;
use vstd::arithmetic::div_mod::lemma_fundamental_div_mod_converse;
use crate::codec::ScalarValue;
use crate::codec::WordOrder;
use crate::codec::spec_decode_value;
use crate::codec::decode_value;
use crate::codec::spec_encode_u32;
use crate::codec::encode_u32;
use crate::codec::spec_i16_to_u16;
use crate::codec::i16_to_u16;
use crate::codec::spec_i32_to_u32;
use crate::codec::i32_to_u32;
use crate::errors::ConfigError;
use crate::format_spec::Formats;
use crate::format_spec::Functions;
use crate::format_spec::Type;
use crate::format_spec::is_register_format;
use crate::format_spec::spec_register_width;
use crate::format_spec::register_width;
use crate::format_spec::spec_writable;
use crate::literals::spec_uint_literal;
use crate::literals::spec_signed_literal;
use crate::literals::parse_u16_literal;
use crate::literals::parse_u32_literal;
use crate::literals::parse_i16_literal;
use crate::literals::parse_i32_literal;
use crate::literals::parse_bool_literal;
use crate::stats::TransferStats;

verus! {

/// How one request ended: a good response, a remote exception, or no
/// response within the deadline.
#[derive(Clone, Copy, Debug, PartialEq, Eq, Structural)]
pub enum RequestOutcome {
    Success,
    ProtocolError,
    Timeout,
}

/// What to do when connecting to the device fails: give up in
/// single-pass mode, otherwise retry before the next sweep.
#[derive(Clone, Copy, Debug, PartialEq, Eq, Structural)]
pub enum ConnectAction {
    Fatal,
    Retry,
}

/// The action after a connection-establishment failure.
pub fn on_connect_failure(single_pass: bool) -> (r: ConnectAction)
    ensures
        r == if single_pass {
            ConnectAction::Fatal
        } else {
            ConnectAction::Retry
        },
{
    if single_pass {
        ConnectAction::Fatal
    } else {
        ConnectAction::Retry
    }
}

/// A write targets exactly one slave address: a longer address list is
/// rejected before anything is sent.
pub fn validate_write_slave_count(n: usize) -> (r: Result<(), ConfigError>)
    ensures
        r == if n > 1 {
            Err::<(), ConfigError>(ConfigError::TooManySlaves)
        } else {
            Ok::<(), ConfigError>(())
        },
{
    if n > 1 {
        Err(ConfigError::TooManySlaves)
    } else {
        Ok(())
    }
}

/// The number of register words one read must request: the value count
/// times the format's register width.
pub fn read_quantity(count: u16, f: Formats) -> (q: u16)
    requires
        1 <= count <= 125,
    ensures
        q == count * spec_register_width(f),
{
    count * register_width(f)
}

/// One read of a sweep: which slave, from which starting reference,
/// and how many register words.
#[derive(Clone, Copy, Debug, PartialEq, Eq, Structural)]
pub struct ReadRequest {
    pub slave: u8,
    pub reference: u16,
    pub quantity: u16,
}

/// The reads of one full sweep: one request per (slave, reference)
/// pair, slaves outermost, in configuration order.
pub fn plan_read_sweep(slaves: &Vec<u8>, references: &Vec<u16>, count: u16, f: Formats) -> (r: Vec<
    ReadRequest,
>)
    requires
        1 <= count <= 125,
    ensures
        r@.len() == slaves@.len() * references@.len(),
        forall|i: int, j: int|
            0 <= i < slaves@.len() && 0 <= j < references@.len() ==> r@[i * references@.len() + j]
                == (ReadRequest {
                slave: slaves@[i],
                reference: references@[j],
                quantity: (count * spec_register_width(f)) as u16,
            }),
{
    let q = read_quantity(count, f);
    let m = references.len();
    let mut out: Vec<ReadRequest> = Vec::new();
    let mut i: usize = 0;
    while i < slaves.len()
        invariant
            i <= slaves@.len(),
            m == references@.len(),
            q == count * spec_register_width(f),
            out@.len() == i * m,
            forall|idx: int|
                0 <= idx < out@.len() ==> out@[idx] == (ReadRequest {
                    slave: slaves@[idx / (m as int)],
                    reference: references@[idx % (m as int)],
                    quantity: q,
                }),
        decreases slaves@.len() - i,
    {
        let slave = slaves[i];
        let mut j: usize = 0;
        while j < m
            invariant
                i < slaves@.len(),
                j <= m,
                m == references@.len(),
                q == count * spec_register_width(f),
                slave == slaves@[i as int],
                out@.len() == i * m + j,
                forall|idx: int|
                    0 <= idx < out@.len() ==> out@[idx] == (ReadRequest {
                        slave: slaves@[idx / (m as int)],
                        reference: references@[idx % (m as int)],
                        quantity: q,
                    }),
            decreases m - j,
        {
            out.push(ReadRequest { slave, reference: references[j], quantity: q });
            proof {
                lemma_fundamental_div_mod_converse(
                    i * (m as int) + j,
                    m as int,
                    i as int,
                    j as int,
                );
            }
            j = j + 1;
        }
        proof {
            vstd::arithmetic::mul::lemma_mul_is_distributive_add_other_way(m as int, i as int, 1);
        }
        i = i + 1;
    }
    proof {
        assert forall|a: int, b: int|
            0 <= a < slaves@.len() && 0 <= b < references@.len() implies out@[a
            * references@.len() + b] == (ReadRequest {
            slave: slaves@[a],
            reference: references@[b],
            quantity: (count * spec_register_width(f)) as u16,
        }) by {
            let mm = references@.len() as int;
            vstd::arithmetic::mul::lemma_mul_is_distributive_add_other_way(mm, a, 1);
            vstd::arithmetic::mul::lemma_mul_inequality(a + 1, slaves@.len() as int, mm);
            lemma_fundamental_div_mod_converse(a * mm + b, mm, a, b);
        }
    }
    out
}

/// One displayed line of a successful read: the advancing address and
/// the value decoded there.
#[derive(Clone, Copy, Debug, PartialEq, Eq, Structural)]
pub struct DisplayLine {
    pub address: u16,
    pub value: ScalarValue,
}

/// Decode a successful read into its displayed lines: `count` values,
/// each consuming the format's register width in data words, with the
/// displayed address advancing by that width per line.
pub fn decode_read_values(
    data: &Vec<u16>,
    start: u16,
    count: u16,
    f: Formats,
    order: WordOrder,
) -> (r: Vec<DisplayLine>)
    requires
        is_register_format(f),
        count * spec_register_width(f) <= data@.len(),
        start + count * spec_register_width(f) <= 0x10000,
    ensures
        r@.len() == count,
        forall|c: int|
            0 <= c < count ==> r@[c].address == start + c * spec_register_width(f),
        forall|c: int|
            0 <= c < count ==> r@[c].value == spec_decode_value(
                data@,
                c * spec_register_width(f),
                f,
                order,
            ),
{
    let width = register_width(f);
    let mut out: Vec<DisplayLine> = Vec::new();
    let mut c: usize = 0;
    let mut offset: usize = 0;
    while c < count as usize
        invariant
            is_register_format(f),
            width == spec_register_width(f),
            count * width <= data@.len(),
            start + count * width <= 0x10000,
            c <= count,
            offset == c * width,
            out@.len() == c,
            forall|k: int| 0 <= k < c ==> out@[k].address == start + k * width,
            forall|k: int|
                0 <= k < c ==> out@[k].value == spec_decode_value(data@, k * width, f, order),
        decreases count - c,
    {
        proof {
            assert((c + 1) * width == c * width + width) by (nonlinear_arith);
            assert((c + 1) * width <= count * width) by (nonlinear_arith)
                requires
                    c + 1 <= count,
                    width >= 1,
            ;
        }
        let addr: u16 = ((start as u32) + (offset as u32)) as u16;
        let value = decode_value(data, offset, f, order);
        out.push(DisplayLine { address: addr, value });
        c = c + 1;
        offset = offset + width as usize;
    }
    out
}

/// How many of a run's outcomes were successes.
pub open spec fn count_successes(s: Seq<RequestOutcome>) -> int
    decreases s.len(),
{
    if s.len() == 0 {
        0
    } else {
        count_successes(s.drop_last()) + if s.last() is Success {
            1int
        } else {
            0int
        }
    }
}

/// The success count never leaves 0..=len.
pub proof fn lemma_count_successes_bounds(s: Seq<RequestOutcome>)
    ensures
        0 <= count_successes(s) <= s.len(),
    decreases s.len(),
{
    if s.len() > 0 {
        lemma_count_successes_bounds(s.drop_last());
    }
}

/// Land one finished request in the statistics: `transmitted` always
/// grows by one, `received` on success, `error` otherwise.
pub fn record_outcome(stats: &mut TransferStats, outcome: RequestOutcome)
    requires
        old(stats).transmitted < u64::MAX,
        old(stats).received < u64::MAX,
        old(stats).error < u64::MAX,
    ensures
        final(stats).transmitted == old(stats).transmitted + 1,
        final(stats).received == old(stats).received + if outcome is Success {
            1int
        } else {
            0int
        },
        final(stats).error == old(stats).error + if outcome is Success {
            0int
        } else {
            1int
        },
{
    stats.increment_transmitted();
    match outcome {
        RequestOutcome::Success => stats.increment_received(),
        RequestOutcome::ProtocolError => stats.increment_error(),
        RequestOutcome::Timeout => stats.increment_error(),
    }
}

/// Land a whole run's outcomes: after N successes among len requests,
/// `transmitted` grew by len, `received` by N, and `error` by len - N.
pub fn record_outcomes(stats: &mut TransferStats, outcomes: &Vec<RequestOutcome>)
    requires
        old(stats).transmitted + outcomes@.len() <= u64::MAX,
        old(stats).received + outcomes@.len() <= u64::MAX,
        old(stats).error + outcomes@.len() <= u64::MAX,
    ensures
        final(stats).transmitted == old(stats).transmitted + outcomes@.len(),
        final(stats).received == old(stats).received + count_successes(outcomes@),
        final(stats).error == old(stats).error + outcomes@.len() - count_successes(outcomes@),
{
    let n = outcomes.len();
    let mut i: usize = 0;
    while i < n
        invariant
            n == outcomes@.len(),
            i <= n,
            old(stats).transmitted + n <= u64::MAX,
            old(stats).received + n <= u64::MAX,
            old(stats).error + n <= u64::MAX,
            stats.transmitted == old(stats).transmitted + i,
            stats.received == old(stats).received + count_successes(outcomes@.take(i as int)),
            stats.error == old(stats).error + i - count_successes(outcomes@.take(i as int)),
        decreases n - i,
    {
        proof {
            lemma_count_successes_bounds(outcomes@.take(i as int));
        }
        let outcome = outcomes[i];
        record_outcome(stats, outcome);
        proof {
            let taken = outcomes@.take(i + 1);
            assert(taken.drop_last() =~= outcomes@.take(i as int));
            assert(taken.last() == outcomes@[i as int]);
        }
        i = i + 1;
    }
    proof {
        assert(outcomes@.take(n as int) =~= outcomes@);
    }
}

/// A validated write payload, ready for the transport: the
/// single-register/coil fast path is taken exactly when one value is
/// written under a one-word format.
pub enum WritePayload {
    SingleCoil(bool),
    MultipleCoils(Vec<bool>),
    SingleRegister(u16),
    MultipleRegisters(Vec<u16>),
}

/// The register words one literal contributes under format `f`, if it
/// parses: one word for the 16-bit formats, the encoded pair for the
/// 32-bit integer formats.  Float formats are not parsed here (their
/// literals are floating point), and the placeholder formats carry no
/// values.
pub open spec fn spec_literal_words(f: Formats, lit: Seq<char>, order: WordOrder) -> Option<
    Seq<u16>,
> {
    match f {
        Formats::U16 | Formats::Hex16 | Formats::Bin16 => match spec_uint_literal(lit) {
            Some(v) => if v <= 0xFFFF {
                Some(seq![v as u16])
            } else {
                None
            },
            None => None,
        },
        Formats::I16 => match spec_signed_literal(lit) {
            Some(v) => if -0x8000 <= v <= 0x7FFF {
                Some(seq![spec_i16_to_u16(v as i16)])
            } else {
                None
            },
            None => None,
        },
        Formats::I32 | Formats::I32abcd | Formats::I32badc | Formats::I32cdab
        | Formats::I32dcba => match spec_signed_literal(lit) {
            Some(v) => if -0x8000_0000 <= v <= 0x7FFF_FFFF {
                Some(
                    seq![
                        spec_encode_u32(spec_i32_to_u32(v as i32), order).0,
                        spec_encode_u32(spec_i32_to_u32(v as i32), order).1,
                    ],
                )
            } else {
                None
            },
            None => None,
        },
        Formats::U32 | Formats::U32abcd | Formats::U32badc | Formats::U32cdab | Formats::U32dcba
        | Formats::Hex32 | Formats::Bin32 => match spec_uint_literal(lit) {
            Some(v) => if v <= 0xFFFF_FFFF {
                Some(
                    seq![
                        spec_encode_u32(v as u32, order).0,
                        spec_encode_u32(v as u32, order).1,
                    ],
                )
            } else {
                None
            },
            None => None,
        },
        _ => None,
    }
}

/// The register words of a whole literal list, if every literal
/// parses: the concatenation of each literal's words, in order.
pub open spec fn spec_words_of_literals(
    f: Formats,
    lits: Seq<Seq<char>>,
    order: WordOrder,
) -> Option<Seq<u16>>
    decreases lits.len(),
{
    if lits.len() == 0 {
        Some(Seq::empty())
    } else {
        match spec_words_of_literals(f, lits.drop_last(), order) {
            None => None,
            Some(init) => match spec_literal_words(f, lits.last(), order) {
                None => None,
                Some(w) => Some(init + w),
            },
        }
    }
}

/// The coil values of a literal list, if every literal is a boolean
/// token.
pub open spec fn spec_coils_of_literals(lits: Seq<Seq<char>>) -> Option<Seq<bool>>
    decreases lits.len(),
{
    if lits.len() == 0 {
        Some(Seq::empty())
    } else {
        match spec_coils_of_literals(lits.drop_last()) {
            None => None,
            Some(init) => {
                let lit = lits.last();
                if lit == "true"@ {
                    Some(init.push(true))
                } else if lit == "false"@ {
                    Some(init.push(false))
                } else {
                    None
                }
            },
        }
    }
}

/// The views of a list of literal strings.
pub open spec fn lit_views(lits: Seq<String>) -> Seq<Seq<char>> {
    lits.map_values(|s: String| s@)
}

/// Validate and build a write payload from literal strings, before any
/// I/O.  Read-only functions reject the write outright; a literal that
/// does not parse under the format aborts with `InvalidLiteral` and
/// nothing is transmitted.  Exactly one value under a one-word format
/// takes the single-register (or single-coil) fast path.  Float
/// literals are not handled here: their parsing is a display-layer
/// concern, and their encoded bit patterns enter through
/// `encode_f32_write_words`.  The event-driven point categories take
/// their writes through `crate::point_store::build_point_writes`;
/// handing one here is a category mismatch.
pub fn build_write_payload(t: Type, literals: &Vec<String>, order: WordOrder) -> (r: Result<
    WritePayload,
    ConfigError,
>)
    requires
        literals@.len() >= 1,
    ensures
        !spec_writable(t.function) ==> r == Err::<WritePayload, ConfigError>(
            if t.function is All {
                ConfigError::WriteNotAllowed
            } else {
                ConfigError::WriteToReadOnly
            },
        ),
        spec_writable(t.function) && t.function is Coil ==> match spec_coils_of_literals(
            lit_views(literals@),
        ) {
            Some(cs) => if cs.len() == 1 {
                r == Ok::<WritePayload, ConfigError>(WritePayload::SingleCoil(cs[0]))
            } else {
                r matches Ok(WritePayload::MultipleCoils(v)) && v@ == cs
            },
            None => r == Err::<WritePayload, ConfigError>(ConfigError::InvalidLiteral),
        },
        spec_writable(t.function) && t.function is HoldingRegister ==> match spec_words_of_literals(
            t.format,
            lit_views(literals@),
            order,
        ) {
            Some(ws) => if ws.len() == 1 {
                r == Ok::<WritePayload, ConfigError>(WritePayload::SingleRegister(ws[0]))
            } else {
                r matches Ok(WritePayload::MultipleRegisters(v)) && v@ == ws
            },
            None => r == Err::<WritePayload, ConfigError>(ConfigError::InvalidLiteral),
        },
        spec_writable(t.function) && !(t.function is Coil) && !(t.function is HoldingRegister)
            ==> r == Err::<WritePayload, ConfigError>(ConfigError::IncompatibleFormat),
{
    match t.function {
        Functions::DiscreteInput | Functions::InputRegister => Err(ConfigError::WriteToReadOnly),
        Functions::All => Err(ConfigError::WriteNotAllowed),
        Functions::Coil => {
            let mut coils: Vec<bool> = Vec::new();
            let n = literals.len();
            let mut i: usize = 0;
            proof {
                assert(lit_views(literals@.take(0)) =~= Seq::<Seq<char>>::empty());
                assert(coils@ =~= Seq::<bool>::empty());
            }
            while i < n
                invariant
                    t.function is Coil,
                    n == literals@.len(),
                    i <= n,
                    spec_coils_of_literals(lit_views(literals@.take(i as int))) == Some(coils@),
                decreases n - i,
            {
                let b = match parse_bool_literal(literals[i].as_str()) {
                    Some(b) => b,
                    None => {
                        proof {
                            lemma_coils_prefix_none(lit_views(literals@), i as int);
                        }
                        return Err(ConfigError::InvalidLiteral);
                    },
                };
                coils.push(b);
                proof {
                    let lv = lit_views(literals@.take(i + 1));
                    assert(lv.drop_last() =~= lit_views(literals@.take(i as int)));
                    assert(lv.last() == literals@[i as int]@);
                }
                i = i + 1;
            }
            proof {
                assert(lit_views(literals@.take(n as int)) =~= lit_views(literals@));
            }
            if coils.len() == 1 {
                Ok(WritePayload::SingleCoil(coils[0]))
            } else {
                Ok(WritePayload::MultipleCoils(coils))
            }
        },
        Functions::HoldingRegister => {
            let mut words: Vec<u16> = Vec::new();
            let n = literals.len();
            let mut i: usize = 0;
            proof {
                assert(lit_views(literals@.take(0)) =~= Seq::<Seq<char>>::empty());
                assert(words@ =~= Seq::<u16>::empty());
            }
            while i < n
                invariant
                    t.function is HoldingRegister,
                    n == literals@.len(),
                    i <= n,
                    spec_words_of_literals(t.format, lit_views(literals@.take(i as int)), order)
                        == Some(words@),
                decreases n - i,
            {
                let lit = literals[i].as_str();
                let lw = match literal_words(t.format, lit, order) {
                    Some(lw) => lw,
                    None => {
                        proof {
                            lemma_words_prefix_none(t.format, lit_views(literals@), order, i as int);
                        }
                        return Err(ConfigError::InvalidLiteral);
                    },
                };
                let mut k: usize = 0;
                let ghost words_before = words@;
                proof {
                    assert(words_before + lw@.take(0) =~= words_before);
                }
                while k < lw.len()
                    invariant
                        k <= lw@.len(),
                        words@ == words_before + lw@.take(k as int),
                    decreases lw@.len() - k,
                {
                    words.push(lw[k]);
                    proof {
                        assert(words_before + lw@.take(k + 1) =~= (words_before + lw@.take(
                            k as int,
                        )).push(lw@[k as int]));
                    }
                    k = k + 1;
                }
                proof {
                    assert(lw@.take(lw@.len() as int) =~= lw@);
                    let lv = lit_views(literals@.take(i + 1));
                    assert(lv.drop_last() =~= lit_views(literals@.take(i as int)));
                    assert(lv.last() == literals@[i as int]@);
                }
                i = i + 1;
            }
            proof {
                assert(lit_views(literals@.take(n as int)) =~= lit_views(literals@));
            }
            if words.len() == 1 {
                Ok(WritePayload::SingleRegister(words[0]))
            } else {
                Ok(WritePayload::MultipleRegisters(words))
            }
        },
        _ => Err(ConfigError::IncompatibleFormat),
    }
}

/// If one literal of the list fails to parse, the whole list fails.
proof fn lemma_coils_prefix_none(lits: Seq<Seq<char>>, i: int)
    requires
        0 <= i < lits.len(),
        lits[i] != "true"@,
        lits[i] != "false"@,
    ensures
        spec_coils_of_literals(lits.subrange(0, lits.len() as int)) is None,
        spec_coils_of_literals(lits) is None,
    decreases lits.len(),
{
    assert(lits.subrange(0, lits.len() as int) =~= lits);
    if lits.len() > 0 {
        if i == lits.len() - 1 {
        } else {
            lemma_coils_prefix_none(lits.drop_last(), i);
        }
    }
}

/// If one literal of the list fails to parse, the whole list fails.
proof fn lemma_words_prefix_none(f: Formats, lits: Seq<Seq<char>>, order: WordOrder, i: int)
    requires
        0 <= i < lits.len(),
        spec_literal_words(f, lits[i], order) is None,
    ensures
        spec_words_of_literals(f, lits, order) is None,
    decreases lits.len(),
{
    if lits.len() > 0 {
        if i == lits.len() - 1 {
        } else {
            lemma_words_prefix_none(f, lits.drop_last(), order, i);
        }
    }
}

/// The register words one literal contributes under format `f`, if it
/// parses (see `spec_literal_words`).
pub fn literal_words(f: Formats, lit: &str, order: WordOrder) -> (r: Option<Vec<u16>>)
    ensures
        match r {
            Some(v) => spec_literal_words(f, lit@, order) == Some(v@),
            None => spec_literal_words(f, lit@, order) is None,
        },
{
    match f {
        Formats::U16 | Formats::Hex16 | Formats::Bin16 => match parse_u16_literal(lit) {
            Some(v) => {
                let mut out: Vec<u16> = Vec::new();
                out.push(v);
                proof {
                    assert(out@ =~= seq![v]);
                }
                Some(out)
            },
            None => None,
        },
        Formats::I16 => match parse_i16_literal(lit) {
            Some(v) => {
                let mut out: Vec<u16> = Vec::new();
                out.push(i16_to_u16(v));
                proof {
                    assert(out@ =~= seq![spec_i16_to_u16(v)]);
                }
                Some(out)
            },
            None => None,
        },
        Formats::I32 | Formats::I32abcd | Formats::I32badc | Formats::I32cdab
        | Formats::I32dcba => match parse_i32_literal(lit) {
            Some(v) => {
                let (w0, w1) = encode_u32(i32_to_u32(v), order);
                let mut out: Vec<u16> = Vec::new();
                out.push(w0);
                out.push(w1);
                proof {
                    assert(out@ =~= seq![
                        spec_encode_u32(spec_i32_to_u32(v), order).0,
                        spec_encode_u32(spec_i32_to_u32(v), order).1,
                    ]);
                }
                Some(out)
            },
            None => None,
        },
        Formats::U32 | Formats::U32abcd | Formats::U32badc | Formats::U32cdab | Formats::U32dcba
        | Formats::Hex32 | Formats::Bin32 => match parse_u32_literal(lit) {
            Some(v) => {
                let (w0, w1) = encode_u32(v, order);
                let mut out: Vec<u16> = Vec::new();
                out.push(w0);
                out.push(w1);
                proof {
                    assert(out@ =~= seq![
                        spec_encode_u32(v, order).0,
                        spec_encode_u32(v, order).1,
                    ]);
                }
                Some(out)
            },
            None => None,
        },
        _ => None,
    }
}

/// Encode pre-parsed float bit patterns into a multi-register write
/// payload.  Float literals themselves are parsed by the display layer;
/// this takes the IEEE-754 bit patterns and lays them out under the
/// word order, two words per value, in order.
pub fn encode_f32_write_words(bits: &Vec<u32>, order: WordOrder) -> (r: Vec<u16>)
    ensures
        r@.len() == 2 * bits@.len(),
        forall|i: int|
            0 <= i < bits@.len() ==> r@[2 * i] == spec_encode_u32(bits@[i], order).0 && r@[2 * i
                + 1] == spec_encode_u32(bits@[i], order).1,
{
    let n = bits.len();
    let mut out: Vec<u16> = Vec::new();
    let mut i: usize = 0;
    while i < n
        invariant
            n == bits@.len(),
            i <= n,
            out@.len() == 2 * i,
            forall|k: int|
                0 <= k < i ==> out@[2 * k] == spec_encode_u32(bits@[k], order).0 && out@[2 * k + 1]
                    == spec_encode_u32(bits@[k], order).1,
        decreases n - i,
    {
        let (w0, w1) = encode_u32(bits[i], order);
        out.push(w0);
        out.push(w1);
        i = i + 1;
    }
    out
}

} // verus!
