//! The interpreter's transition system, stated mathematically.
//!
//! One byte moves the interpreter from state to state and emits at most one
//! event ([`step`]); a byte sequence folds [`step`] over its bytes ([`run`]).
//! The executable interpreter in [`crate::interp`] promises in its contracts
//! to follow exactly this transition system, so every law about decoding is a
//! law about these functions.
//!
//! Decoding policy, spelled out once:
//! - In ground state, printable ASCII and well-formed UTF-8 sequences become
//!   `Print` events; the C0 bytes LF, CR, BS, TAB and BEL become their
//!   events; ESC opens an escape sequence; every other C0 byte, DEL, and
//!   every ill-formed UTF-8 sequence (stray continuation byte, invalid lead
//!   byte, overlong form, surrogate, out-of-range value) is dropped without
//!   an event and without stopping the decoding of later bytes.
//! - A byte that cannot continue a partial UTF-8 sequence discards the
//!   partial sequence and is then processed in ground state.
//! - ESC anywhere inside a CSI sequence abandons that sequence and starts a
//!   new escape sequence. C0 bytes and DEL inside a CSI sequence are consumed
//!   without effect, as are intermediate bytes (0x20-0x2f) and private
//!   markers (0x3c-0x3f, e.g. the `?` of private modes).
//! - A CSI sequence stores at most [`MAX_CSI_PARAMS`] numeric values; one
//!   that would store more is dropped whole, with no event.
//! - OSC payload bytes at or above 0x20 accumulate raw; BEL and ST (ESC `\`)
//!   both terminate the sequence the same way, emitting one `Osc` event and
//!   nothing else. ESC followed by any byte other than `\` abandons the OSC
//!   sequence (no event) and processes that byte as an escape sequence.
//! - DCS payloads (ESC `P` ... ESC `\`) are consumed without events and
//!   without desynchronizing, mirroring the OSC rules.

use crate::attr::{default_attrs, sgr_apply, Attributes};
use crate::event::EventV;
use vstd::prelude::*;
use vstd::utf8::{
    is_continuation_byte, is_leading_byte_width_2, is_leading_byte_width_3,
    is_leading_byte_width_4, length_of_first_codepoint, decode_first_scalar, valid_first_scalar,
};

verus! {

/// The most numeric parameter values one CSI sequence may store; a sequence
/// that would store more sets its ignore flag and is dropped whole.
pub const MAX_CSI_PARAMS: usize = 32;

/// The parameter accumulator of a CSI sequence in progress: the completed
/// parameter groups, the completed sub-values of the current group, the
/// value being accumulated digit by digit, whether any parameter byte has
/// been seen at all, how many values have been stored, and whether the
/// sequence is to be ignored.
pub struct CsiSt {
    pub groups: Seq<Seq<u16>>,
    pub cur: Seq<u16>,
    pub val: u16,
    pub seen: bool,
    pub count: int,
    pub ignore: bool,
}

/// The accumulator of an OSC sequence in progress: the completed parameter
/// byte-strings and the one being accumulated.
pub struct OscSt {
    pub params: Seq<Seq<u8>>,
    pub cur: Seq<u8>,
}

/// Where the interpreter stands between two bytes.
pub enum ModeV {
    /// Outside any escape sequence.
    Ground,
    /// Inside a multi-byte UTF-8 sequence; `bytes` holds the lead byte and
    /// the continuation bytes seen so far.
    Utf8 { bytes: Seq<u8> },
    /// An ESC byte was seen and its successor decides the sequence kind.
    Escape,
    /// Inside a CSI sequence (ESC `[` ... final byte).
    Csi(CsiSt),
    /// Inside an OSC sequence (ESC `]` ... BEL or ST).
    Osc(OscSt),
    /// Inside an OSC sequence, right after an ESC byte.
    OscEsc(OscSt),
    /// Inside a DCS sequence (ESC `P` ... ST), which is consumed unseen.
    Dcs,
    /// Inside a DCS sequence, right after an ESC byte.
    DcsEsc,
}

/// The interpreter's whole state: its mode and the current attributes that
/// the next printed character will carry.
pub struct IState {
    pub mode: ModeV,
    pub attrs: Attributes,
}

/// The state of a freshly created interpreter.
pub open spec fn init_state() -> IState {
    IState { mode: ModeV::Ground, attrs: default_attrs() }
}

/// Ground state with the given attributes.
pub open spec fn ground(attrs: Attributes) -> IState {
    IState { mode: ModeV::Ground, attrs }
}

/// A CSI accumulator with nothing stored yet.
pub open spec fn fresh_csi() -> CsiSt {
    CsiSt { groups: Seq::empty(), cur: Seq::empty(), val: 0, seen: false, count: 0, ignore: false }
}

/// How many bytes a UTF-8 sequence with this lead byte has.
pub open spec fn utf8_width(lead: u8) -> int {
    if is_leading_byte_width_2(lead) {
        2
    } else if is_leading_byte_width_3(lead) {
        3
    } else {
        4
    }
}

/// The event, if any, for a complete UTF-8 byte sequence: a `Print` of the
/// decoded scalar when the sequence is a well-formed encoding of exactly its
/// own length, nothing otherwise.
pub open spec fn utf8_result(bytes: Seq<u8>, attrs: Attributes) -> Option<EventV> {
    if valid_first_scalar(bytes) && length_of_first_codepoint(bytes) == bytes.len() {
        Some(EventV::Print { ch: decode_first_scalar(bytes) as char, attrs })
    } else {
        None
    }
}

/// One byte in ground state.
pub open spec fn ground_step(attrs: Attributes, b: u8) -> (IState, Option<EventV>) {
    if b == 0x1b {
        (IState { mode: ModeV::Escape, attrs }, None)
    } else if b == 0x0a {
        (ground(attrs), Some(EventV::Linefeed))
    } else if b == 0x0d {
        (ground(attrs), Some(EventV::CarriageReturn))
    } else if b == 0x08 {
        (ground(attrs), Some(EventV::Backspace))
    } else if b == 0x09 {
        (ground(attrs), Some(EventV::Tab))
    } else if b == 0x07 {
        (ground(attrs), Some(EventV::Bell))
    } else if 0x20 <= b && b <= 0x7e {
        (ground(attrs), Some(EventV::Print { ch: b as char, attrs }))
    } else if b <= 0x1f || b == 0x7f {
        (ground(attrs), None)
    } else if is_leading_byte_width_2(b) || is_leading_byte_width_3(b)
        || is_leading_byte_width_4(b) {
        (IState { mode: ModeV::Utf8 { bytes: seq![b] }, attrs }, None)
    } else {
        (ground(attrs), None)
    }
}

/// One byte inside a partial UTF-8 sequence.
pub open spec fn utf8_step(attrs: Attributes, bytes: Seq<u8>, b: u8) -> (IState, Option<EventV>) {
    if is_continuation_byte(b) && bytes.len() > 0 {
        let bs = bytes.push(b);
        if bs.len() >= utf8_width(bytes[0]) {
            (ground(attrs), utf8_result(bs, attrs))
        } else {
            (IState { mode: ModeV::Utf8 { bytes: bs }, attrs }, None)
        }
    } else {
        ground_step(attrs, b)
    }
}

/// The byte right after an ESC: `[` opens a CSI sequence, `]` an OSC
/// sequence, `P` a DCS sequence, a further ESC stays here, and any other
/// byte is reported as an `UnhandledEsc` event.
pub open spec fn escape_step(attrs: Attributes, b: u8) -> (IState, Option<EventV>) {
    if b == 0x1b {
        (IState { mode: ModeV::Escape, attrs }, None)
    } else if b == 0x5b {
        (IState { mode: ModeV::Csi(fresh_csi()), attrs }, None)
    } else if b == 0x5d {
        (IState { mode: ModeV::Osc(OscSt { params: Seq::empty(), cur: Seq::empty() }), attrs },
        None)
    } else if b == 0x50 {
        (IState { mode: ModeV::Dcs, attrs }, None)
    } else {
        (ground(attrs), Some(EventV::UnhandledEsc(b)))
    }
}

/// One more digit of the value being accumulated, saturating at the largest
/// value a parameter can hold.
pub open spec fn sat_val(val: u16, d: u16) -> u16 {
    if val * 10 + d > 0xffff {
        0xffff as u16
    } else {
        (val * 10 + d) as u16
    }
}

/// A digit byte inside a CSI sequence.
pub open spec fn csi_digit(c: CsiSt, d: u16) -> CsiSt {
    if c.ignore {
        c
    } else {
        CsiSt { val: sat_val(c.val, d), seen: true, ..c }
    }
}

/// A `:` sub-value separator: stores the accumulated value in the current
/// group, or sets the ignore flag when the sequence already holds as many
/// values as it may.
pub open spec fn csi_sub_sep(c: CsiSt) -> CsiSt {
    if c.ignore {
        c
    } else if c.count >= MAX_CSI_PARAMS {
        CsiSt { ignore: true, ..c }
    } else {
        CsiSt { cur: c.cur.push(c.val), val: 0, seen: true, count: c.count + 1, ..c }
    }
}

/// A `;` group separator: closes the current group (the accumulated value
/// included), or sets the ignore flag when full.
pub open spec fn csi_group_sep(c: CsiSt) -> CsiSt {
    if c.ignore {
        c
    } else if c.count >= MAX_CSI_PARAMS {
        CsiSt { ignore: true, ..c }
    } else {
        CsiSt {
            groups: c.groups.push(c.cur.push(c.val)),
            cur: Seq::empty(),
            val: 0,
            seen: true,
            count: c.count + 1,
            ..c
        }
    }
}

/// The parameter groups a CSI sequence dispatches with: none when the
/// sequence is ignored (or its last value would not fit); the empty group
/// list when no parameter byte was seen at all; otherwise the completed
/// groups with the current group (the accumulated value included) closed.
pub open spec fn csi_params_final(c: CsiSt) -> Option<Seq<Seq<u16>>> {
    if c.ignore {
        None
    } else if !c.seen {
        Some(c.groups)
    } else if c.count >= MAX_CSI_PARAMS {
        None
    } else {
        Some(c.groups.push(c.cur.push(c.val)))
    }
}

/// The first value of parameter group `i`, or `d` when that group is absent.
pub open spec fn param_or(params: Seq<Seq<u16>>, i: int, d: u16) -> u16 {
    if i < params.len() && params[i].len() > 0 {
        params[i][0]
    } else {
        d
    }
}

/// What a complete CSI sequence does, by its final action byte: `m` mutates
/// the current attributes and emits nothing; `H`/`f` position the cursor
/// (both coordinates defaulting to 1); `A`/`B`/`C`/`D` move it relatively
/// (count defaulting to 1); `J`/`K` erase (mode defaulting to 0); `h`/`l`
/// set/reset modes with every numeric value flattened in order; every other
/// action byte is reported as an `UnhandledCsi` event, equally flattened.
pub open spec fn csi_dispatch(attrs: Attributes, action: char, params: Seq<Seq<u16>>) -> (
    Attributes,
    Option<EventV>,
) {
    if action == 'm' {
        (sgr_apply(attrs, params), None)
    } else if action == 'H' || action == 'f' {
        (
            attrs,
            Some(
                EventV::CursorPosition { row: param_or(params, 0, 1), col: param_or(params, 1, 1) },
            ),
        )
    } else if action == 'A' {
        (attrs, Some(EventV::CursorUp(param_or(params, 0, 1))))
    } else if action == 'B' {
        (attrs, Some(EventV::CursorDown(param_or(params, 0, 1))))
    } else if action == 'C' {
        (attrs, Some(EventV::CursorForward(param_or(params, 0, 1))))
    } else if action == 'D' {
        (attrs, Some(EventV::CursorBack(param_or(params, 0, 1))))
    } else if action == 'J' {
        (attrs, Some(EventV::EraseDisplay(param_or(params, 0, 0))))
    } else if action == 'K' {
        (attrs, Some(EventV::EraseLine(param_or(params, 0, 0))))
    } else if action == 'h' {
        (attrs, Some(EventV::SetMode(params.flatten())))
    } else if action == 'l' {
        (attrs, Some(EventV::ResetMode(params.flatten())))
    } else {
        (attrs, Some(EventV::UnhandledCsi { action, params: params.flatten() }))
    }
}

/// One byte inside a CSI sequence.
pub open spec fn csi_step(attrs: Attributes, c: CsiSt, b: u8) -> (IState, Option<EventV>) {
    if b == 0x1b {
        (IState { mode: ModeV::Escape, attrs }, None)
    } else if 0x30 <= b && b <= 0x39 {
        (IState { mode: ModeV::Csi(csi_digit(c, (b - 0x30) as u16)), attrs }, None)
    } else if b == 0x3a {
        (IState { mode: ModeV::Csi(csi_sub_sep(c)), attrs }, None)
    } else if b == 0x3b {
        (IState { mode: ModeV::Csi(csi_group_sep(c)), attrs }, None)
    } else if 0x40 <= b && b <= 0x7e {
        match csi_params_final(c) {
            Some(params) => {
                let (a2, ev) = csi_dispatch(attrs, b as char, params);
                (IState { mode: ModeV::Ground, attrs: a2 }, ev)
            },
            None => (ground(attrs), None),
        }
    } else {
        (IState { mode: ModeV::Csi(c), attrs }, None)
    }
}

/// One byte inside an OSC sequence.
pub open spec fn osc_step(attrs: Attributes, o: OscSt, b: u8) -> (IState, Option<EventV>) {
    if b == 0x07 {
        (ground(attrs), Some(EventV::Osc(o.params.push(o.cur))))
    } else if b == 0x1b {
        (IState { mode: ModeV::OscEsc(o), attrs }, None)
    } else if b == 0x3b {
        (IState { mode: ModeV::Osc(OscSt { params: o.params.push(o.cur), cur: Seq::empty() }), attrs },
        None)
    } else if 0x20 <= b {
        (IState { mode: ModeV::Osc(OscSt { cur: o.cur.push(b), ..o }), attrs }, None)
    } else {
        (IState { mode: ModeV::Osc(o), attrs }, None)
    }
}

/// The byte after an ESC inside an OSC sequence: `\` completes the ST
/// terminator and emits the `Osc` event; anything else abandons the OSC
/// sequence without an event and acts as the byte after an ESC.
pub open spec fn osc_esc_step(attrs: Attributes, o: OscSt, b: u8) -> (IState, Option<EventV>) {
    if b == 0x5c {
        (ground(attrs), Some(EventV::Osc(o.params.push(o.cur))))
    } else {
        escape_step(attrs, b)
    }
}

/// One byte inside a DCS sequence: consumed without an event.
pub open spec fn dcs_step(attrs: Attributes, b: u8) -> (IState, Option<EventV>) {
    if b == 0x1b {
        (IState { mode: ModeV::DcsEsc, attrs }, None)
    } else {
        (IState { mode: ModeV::Dcs, attrs }, None)
    }
}

/// The byte after an ESC inside a DCS sequence: `\` completes the ST
/// terminator (no event); anything else acts as the byte after an ESC.
pub open spec fn dcs_esc_step(attrs: Attributes, b: u8) -> (IState, Option<EventV>) {
    if b == 0x5c {
        (ground(attrs), None)
    } else {
        escape_step(attrs, b)
    }
}

/// One byte moves the interpreter one step and emits at most one event.
pub open spec fn step(s: IState, b: u8) -> (IState, Option<EventV>) {
    match s.mode {
        ModeV::Ground => ground_step(s.attrs, b),
        ModeV::Utf8 { bytes } => utf8_step(s.attrs, bytes, b),
        ModeV::Escape => escape_step(s.attrs, b),
        ModeV::Csi(c) => csi_step(s.attrs, c, b),
        ModeV::Osc(o) => osc_step(s.attrs, o, b),
        ModeV::OscEsc(o) => osc_esc_step(s.attrs, o, b),
        ModeV::Dcs => dcs_step(s.attrs, b),
        ModeV::DcsEsc => dcs_esc_step(s.attrs, b),
    }
}

/// The events one step emits, as a sequence.
pub open spec fn opt_events(ev: Option<EventV>) -> Seq<EventV> {
    match ev {
        Some(e) => seq![e],
        None => Seq::empty(),
    }
}

/// A byte sequence folds [`step`] over its bytes: the resulting state, and
/// every emitted event in input order.
pub open spec fn run(s: IState, bytes: Seq<u8>) -> (IState, Seq<EventV>)
    decreases bytes.len(),
{
    if bytes.len() == 0 {
        (s, Seq::empty())
    } else {
        let first = step(s, bytes[0]);
        let rest = run(first.0, bytes.drop_first());
        (rest.0, opt_events(first.1) + rest.1)
    }
}

/// Order preservation across chunk boundaries: feeding `a` and then `b`
/// reaches the same state as feeding their concatenation at once, and the
/// events of the concatenation are the events of `a` followed by the events
/// of `b`. Chunk boundaries therefore carry no meaning, even in the middle
/// of an escape or UTF-8 sequence.
pub proof fn lemma_run_chunks(s: IState, a: Seq<u8>, b: Seq<u8>)
    ensures
        run(s, a + b).0 == run(run(s, a).0, b).0,
        run(s, a + b).1 == run(s, a).1 + run(run(s, a).0, b).1,
    decreases a.len(),
{
    if a.len() == 0 {
        assert(a + b =~= b);
        assert(run(s, a).1 + run(run(s, a).0, b).1 =~= run(run(s, a).0, b).1);
    } else {
        let s1 = step(s, a[0]).0;
        assert((a + b)[0] == a[0]);
        assert((a + b).drop_first() =~= a.drop_first() + b);
        lemma_run_chunks(s1, a.drop_first(), b);
        assert(opt_events(step(s, a[0]).1) + (run(s1, a.drop_first()).1 + run(
            run(s1, a.drop_first()).0,
            b,
        ).1) =~= (opt_events(step(s, a[0]).1) + run(s1, a.drop_first()).1) + run(
            run(s1, a.drop_first()).0,
            b,
        ).1);
    }
}

/// Running one more byte steps the state reached by the prefix.
pub proof fn lemma_run_snoc(s: IState, a: Seq<u8>, x: u8)
    ensures
        run(s, a.push(x)).0 == step(run(s, a).0, x).0,
        run(s, a.push(x)).1 == run(s, a).1 + opt_events(step(run(s, a).0, x).1),
{
    reveal_with_fuel(run, 3);
    assert(a.push(x) =~= a + seq![x]);
    lemma_run_chunks(s, a, seq![x]);
    let s1 = run(s, a).0;
    assert(seq![x][0] == x);
    assert(seq![x].drop_first() =~= Seq::<u8>::empty());
    assert(run(s1, seq![x]).0 == step(s1, x).0);
    assert(run(s1, seq![x]).1 =~= opt_events(step(s1, x).1));
}

/// Idempotence of the full reset: feeding the bytes of `CSI 0 m`, or of
/// `CSI m` with no parameters, always leaves the current attributes at
/// their default and the interpreter in ground state, regardless of its
/// prior state.
pub proof fn lemma_full_reset(s: IState)
    ensures
        run(s, seq![0x1bu8, 0x5bu8, 0x30u8, 0x6du8]).0 == ground(default_attrs()),
        run(s, seq![0x1bu8, 0x5bu8, 0x6du8]).0 == ground(default_attrs()),
{
    let a = s.attrs;
    // After ESC then `[`, every prior state has reached a fresh CSI
    // accumulator with the attributes unchanged.
    let s1 = step(s, 0x1b).0;
    assert(step(s1, 0x5b).0 == IState { mode: ModeV::Csi(fresh_csi()), attrs: a });
    let csi = IState { mode: ModeV::Csi(fresh_csi()), attrs: a };

    // `CSI 0 m`: the digit accumulates the value 0, and dispatch applies the
    // single SGR code 0, a full reset.
    let c1 = csi_digit(fresh_csi(), 0);
    assert(step(csi, 0x30).0 == IState { mode: ModeV::Csi(c1), attrs: a });
    let params = csi_params_final(c1).unwrap();
    assert(params =~= seq![seq![0u16]]);
    reveal_with_fuel(crate::attr::sgr_fold, 3);
    assert(!crate::attr::sgr_ext_indexed(params) && !crate::attr::sgr_ext_rgb(params));
    assert(crate::attr::sgr_head(a, params) == default_attrs());
    assert(params.skip(1) =~= Seq::<Seq<u16>>::empty());
    assert(crate::attr::sgr_fold(a, params) == default_attrs());
    assert(step(IState { mode: ModeV::Csi(c1), attrs: a }, 0x6d).0 == ground(default_attrs()));

    // `CSI m`: no parameter byte was seen, so dispatch applies the empty
    // group list, likewise a full reset.
    assert(csi_params_final(fresh_csi()).unwrap() =~= Seq::<Seq<u16>>::empty());
    assert(step(csi, 0x6d).0 == ground(default_attrs()));

    let long = seq![0x1bu8, 0x5bu8, 0x30u8, 0x6du8];
    let short = seq![0x1bu8, 0x5bu8, 0x6du8];
    assert(run(s, long).0 == ground(default_attrs())) by {
        reveal_with_fuel(run, 6);
        assert(long.drop_first() =~= seq![0x5bu8, 0x30u8, 0x6du8]);
        assert(seq![0x5bu8, 0x30u8, 0x6du8].drop_first() =~= seq![0x30u8, 0x6du8]);
        assert(seq![0x30u8, 0x6du8].drop_first() =~= seq![0x6du8]);
        assert(seq![0x6du8].drop_first() =~= Seq::<u8>::empty());
    }
    assert(run(s, short).0 == ground(default_attrs())) by {
        reveal_with_fuel(run, 6);
        assert(short.drop_first() =~= seq![0x5bu8, 0x6du8]);
        assert(seq![0x5bu8, 0x6du8].drop_first() =~= seq![0x6du8]);
        assert(seq![0x6du8].drop_first() =~= Seq::<u8>::empty());
    }
}

} // verus!
