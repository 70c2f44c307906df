//! The executable escape-sequence interpreter.
//!
//! [`Parser`] consumes raw bytes one chunk at a time — chunk boundaries carry
//! no meaning, state persists across feeds — and appends decoded
//! [`TerminalEvent`]s to its running output sequence. Its contracts promise
//! that it follows the transition system of [`crate::machine`] exactly:
//! [`Parser::feed`] advances the state by [`run`] and appends precisely the
//! events [`run`] names, in order.

use crate::attr::{apply_sgr, lemma_groups_view, Attributes};
use crate::event::{events_view, EventV, TerminalEvent};
use crate::machine::{
    csi_dispatch, escape_step, ground_step, init_state, opt_events, param_or, run, step,
    utf8_result, utf8_width, CsiSt, IState, ModeV, OscSt, MAX_CSI_PARAMS,
};
use crate::machine::lemma_run_snoc;
use vstd::prelude::*;
use vstd::utf8::{
    is_continuation_byte, is_leading_byte_width_2, is_leading_byte_width_3,
    is_leading_byte_width_4, is_scalar,
};

verus! {

/// Relies on `char::from_u32` of std: returns the character with the given
/// scalar value when one exists (the value is at most 0x10FFFF and not a
/// surrogate), and `None` otherwise.
pub assume_specification[ char::from_u32 ](v: u32) -> (r: Option<char>)
    ensures
        r == (if is_scalar(v) {
            Some(v as char)
        } else {
            None::<char>
        }),
;

/// Which part of the byte protocol the interpreter stands in.
#[derive(Clone, Copy, Debug, PartialEq, Eq, Structural)]
enum Mode {
    Ground,
    Utf8,
    Escape,
    Csi,
    Osc,
    OscEsc,
    Dcs,
    DcsEsc,
}

/// The mathematical value of a [`Parser`]: the state of the transition
/// system it stands in, and the views of the events it has produced so far.
pub struct ParserV {
    pub st: IState,
    pub events: Seq<EventV>,
}

/// The escape-sequence interpreter: a pure state machine from bytes to
/// events. It owns no grid; it only tracks the current attributes that SGR
/// sequences mutate and every printed character snapshots.
///
/// `events` is the append-only log of decoded events; a consumer may drain
/// it between feeds (events already read need not be kept).
pub struct Parser {
    mode: Mode,
    utf8_bytes: Vec<u8>,
    csi_groups: Vec<Vec<u16>>,
    csi_cur: Vec<u16>,
    csi_val: u16,
    csi_seen: bool,
    csi_count: usize,
    csi_ignore: bool,
    osc_params: Vec<Vec<u8>>,
    osc_cur: Vec<u8>,
    current_attrs: Attributes,
    pub events: Vec<TerminalEvent>,
}

impl View for Parser {
    type V = ParserV;

    closed spec fn view(&self) -> ParserV {
        ParserV {
            st: IState { mode: self.mode_view(), attrs: self.current_attrs },
            events: events_view(self.events@),
        }
    }
}

/// The views of the stored parameter byte-strings of an OSC sequence.
proof fn lemma_osc_view(params: &Vec<Vec<u8>>)
    ensures
        params.deep_view().len() == params@.len(),
        forall|i: int| 0 <= i < params@.len() ==> params.deep_view()[i] == params@[i]@,
{
    assert forall|i: int| 0 <= i < params@.len() implies params.deep_view()[i] == params@[i]@ by {
        assert(params@[i].deep_view() =~= params@[i]@);
    }
}

impl Parser {
    /// The state of the transition system this parser stands in.
    spec fn mode_view(&self) -> ModeV {
        match self.mode {
            Mode::Ground => ModeV::Ground,
            Mode::Utf8 => ModeV::Utf8 { bytes: self.utf8_bytes@ },
            Mode::Escape => ModeV::Escape,
            Mode::Csi => ModeV::Csi(
                CsiSt {
                    groups: self.csi_groups.deep_view(),
                    cur: self.csi_cur@,
                    val: self.csi_val,
                    seen: self.csi_seen,
                    count: self.csi_count as int,
                    ignore: self.csi_ignore,
                },
            ),
            Mode::Osc => ModeV::Osc(
                OscSt { params: self.osc_params.deep_view(), cur: self.osc_cur@ },
            ),
            Mode::OscEsc => ModeV::OscEsc(
                OscSt { params: self.osc_params.deep_view(), cur: self.osc_cur@ },
            ),
            Mode::Dcs => ModeV::Dcs,
            Mode::DcsEsc => ModeV::DcsEsc,
        }
    }

    /// Internal well-formedness: during UTF-8 assembly the buffer holds one
    /// multi-byte lead byte and fewer continuation bytes than the encoding
    /// needs. The constructor establishes it and every method preserves it.
    pub closed spec fn inv(&self) -> bool {
        self.mode == Mode::Utf8 ==> {
            &&& 1 <= self.utf8_bytes@.len()
            &&& self.utf8_bytes@.len() < utf8_width(self.utf8_bytes@[0])
            &&& (is_leading_byte_width_2(self.utf8_bytes@[0]) || is_leading_byte_width_3(
                self.utf8_bytes@[0],
            ) || is_leading_byte_width_4(self.utf8_bytes@[0]))
            &&& forall|i: int|
                1 <= i < self.utf8_bytes@.len() ==> is_continuation_byte(
                    #[trigger] self.utf8_bytes@[i],
                )
        }
    }

    /// A fresh interpreter: ground state, default attributes, no events.
    pub fn new() -> (p: Parser)
        ensures
            p@.st == init_state(),
            p@.events == Seq::<EventV>::empty(),
            p.inv(),
    {
        let p = Parser {
            mode: Mode::Ground,
            utf8_bytes: Vec::new(),
            csi_groups: Vec::new(),
            csi_cur: Vec::new(),
            csi_val: 0,
            csi_seen: false,
            csi_count: 0,
            csi_ignore: false,
            osc_params: Vec::new(),
            osc_cur: Vec::new(),
            current_attrs: Attributes::default(),
            events: Vec::new(),
        };
        proof {
            assert(events_view(p.events@) =~= Seq::<EventV>::empty());
        }
        p
    }

    /// The attributes the next printed character will carry.
    pub fn current_attributes(&self) -> (a: Attributes)
        ensures
            a == self@.st.attrs,
    {
        self.current_attrs
    }

    /// What one byte must do to the parser: advance the state by [`step`]
    /// and append exactly the event it names, if any.
    spec fn step_post(pre: Parser, post: Parser, b: u8) -> bool {
        let (s2, ev) = step(pre@.st, b);
        &&& post@.st == s2
        &&& post@.events == pre@.events + opt_events(ev)
    }

    /// Appends one event to the output log; nothing else changes.
    fn emit(&mut self, e: TerminalEvent)
        ensures
            final(self)@.st == old(self)@.st,
            final(self).inv() == old(self).inv(),
            final(self)@.events == old(self)@.events + opt_events(Some(e@)),
    {
        self.events.push(e);
        proof {
            assert(events_view(old(self).events@.push(e)) =~= events_view(old(self).events@).push(
                e@,
            ));
            assert(events_view(old(self).events@).push(e@) =~= events_view(old(self).events@)
                + opt_events(Some(e@)));
        }
    }

    /// Advances the interpreter by the given bytes, appending the decoded
    /// events to the running output sequence: exactly what [`run`] names,
    /// in input order.
    pub fn feed(&mut self, bytes: &[u8])
        requires
            old(self).inv(),
        ensures
            final(self).inv(),
            final(self)@.st == run(old(self)@.st, bytes@).0,
            final(self)@.events == old(self)@.events + run(old(self)@.st, bytes@).1,
    {
        let ghost s0 = self@.st;
        let ghost e0 = self@.events;
        let n = bytes.len();
        proof {
            assert(bytes@.take(0) =~= Seq::<u8>::empty());
            assert(e0 + run(s0, bytes@.take(0)).1 =~= e0);
        }
        let mut i: usize = 0;
        while i < n
            invariant
                i <= n,
                n == bytes@.len(),
                self.inv(),
                self@.st == run(s0, bytes@.take(i as int)).0,
                self@.events == e0 + run(s0, bytes@.take(i as int)).1,
            decreases n - i,
        {
            let b = bytes[i];
            proof {
                lemma_run_snoc(s0, bytes@.take(i as int), b);
                assert(bytes@.take(i as int).push(b) =~= bytes@.take(i as int + 1));
            }
            self.step_byte(b);
            proof {
                assert((e0 + run(s0, bytes@.take(i as int)).1) + opt_events(
                    step(run(s0, bytes@.take(i as int)).0, b).1,
                ) =~= e0 + run(s0, bytes@.take(i as int + 1)).1);
            }
            i = i + 1;
        }
        proof {
            assert(bytes@.take(n as int) =~= bytes@);
        }
    }

    /// One byte of input.
    fn step_byte(&mut self, b: u8)
        requires
            old(self).inv(),
        ensures
            final(self).inv(),
            Self::step_post(*old(self), *final(self), b),
    {
        match self.mode {
            Mode::Ground => self.step_ground(b),
            Mode::Utf8 => self.step_utf8(b),
            Mode::Escape => self.step_escape(b),
            Mode::Csi => self.step_csi(b),
            Mode::Osc => self.step_osc(b),
            Mode::OscEsc => self.step_osc_esc(b),
            Mode::Dcs => self.step_dcs(b),
            Mode::DcsEsc => self.step_dcs_esc(b),
        }
    }

    /// A byte in ground state: C0 dispatch, printable ASCII, or the start of
    /// an escape or UTF-8 sequence.
    fn step_ground(&mut self, b: u8)
        requires
            old(self).mode == Mode::Ground,
            old(self).inv(),
        ensures
            final(self).inv(),
            ({
                let (s2, ev) = ground_step(old(self)@.st.attrs, b);
                &&& final(self)@.st == s2
                &&& final(self)@.events == old(self)@.events + opt_events(ev)
            }),
    {
        if b == 0x1b {
            self.mode = Mode::Escape;
        } else if b == 0x0a {
            self.emit(TerminalEvent::Linefeed);
        } else if b == 0x0d {
            self.emit(TerminalEvent::CarriageReturn);
        } else if b == 0x08 {
            self.emit(TerminalEvent::Backspace);
        } else if b == 0x09 {
            self.emit(TerminalEvent::Tab);
        } else if b == 0x07 {
            self.emit(TerminalEvent::Bell);
        } else if 0x20 <= b && b <= 0x7e {
            let attrs = self.current_attrs;
            self.emit(TerminalEvent::Print { ch: b as char, attrs });
        } else if b <= 0x1f || b == 0x7f {
            // Other C0 bytes and DEL are silently dropped.
        } else if 0xc0 <= b && b <= 0xf7 {
            self.utf8_bytes = Vec::new();
            self.utf8_bytes.push(b);
            self.mode = Mode::Utf8;
        } else {
            // A stray continuation byte or an invalid lead byte is dropped.
        }
    }

    /// A byte inside a partial UTF-8 sequence: a continuation byte extends
    /// or completes it; anything else discards the partial sequence and is
    /// processed in ground state.
    fn step_utf8(&mut self, b: u8)
        requires
            old(self).mode == Mode::Utf8,
            old(self).inv(),
        ensures
            final(self).inv(),
            Self::step_post(*old(self), *final(self), b),
    {
        if 0x80 <= b && b <= 0xbf {
            self.utf8_bytes.push(b);
            let lead = self.utf8_bytes[0];
            let w: usize = if lead <= 0xdf {
                2
            } else if lead <= 0xef {
                3
            } else {
                4
            };
            if self.utf8_bytes.len() >= w {
                self.mode = Mode::Ground;
                self.finish_utf8();
            }
        } else {
            self.mode = Mode::Ground;
            self.step_ground(b);
        }
    }

    /// Decodes the completed UTF-8 buffer and emits the `Print` event when
    /// it is a well-formed encoding, per [`utf8_result`].
    fn finish_utf8(&mut self)
        requires
            old(self).mode == Mode::Ground,
            old(self).utf8_bytes@.len() == utf8_width(old(self).utf8_bytes@[0]),
            is_leading_byte_width_2(old(self).utf8_bytes@[0]) || is_leading_byte_width_3(
                old(self).utf8_bytes@[0],
            ) || is_leading_byte_width_4(old(self).utf8_bytes@[0]),
            forall|i: int|
                1 <= i < old(self).utf8_bytes@.len() ==> is_continuation_byte(
                    #[trigger] old(self).utf8_bytes@[i],
                ),
        ensures
            final(self).inv(),
            final(self)@.st == old(self)@.st,
            final(self)@.events == old(self)@.events + opt_events(
                utf8_result(old(self).utf8_bytes@, old(self)@.st.attrs),
            ),
    {
        let ghost bs = self.utf8_bytes@;
        let n = self.utf8_bytes.len();
        let b0 = self.utf8_bytes[0];
        let cp: u32;
        let ok: bool;
        if n == 2 {
            let b1 = self.utf8_bytes[1];
            cp = (((b0 & 0x1f) as u32) << 6u32) | ((b1 & 0x3f) as u32);
            ok = cp >= 0x80;
            proof {
                assert(cp <= 0x7ff) by (bit_vector)
                    requires
                        cp == (((b0 & 0x1f) as u32) << 6u32) | ((b1 & 0x3f) as u32),
                ;
            }
        } else if n == 3 {
            let b1 = self.utf8_bytes[1];
            let b2 = self.utf8_bytes[2];
            cp = (((b0 & 0x0f) as u32) << 12u32) | (((b1 & 0x3f) as u32) << 6u32) | ((b2
                & 0x3f) as u32);
            ok = cp >= 0x800;
            proof {
                assert(cp <= 0xffff) by (bit_vector)
                    requires
                        cp == (((b0 & 0x0f) as u32) << 12u32) | (((b1 & 0x3f) as u32) << 6u32) | ((
                        b2 & 0x3f) as u32),
                ;
            }
        } else {
            let b1 = self.utf8_bytes[1];
            let b2 = self.utf8_bytes[2];
            let b3 = self.utf8_bytes[3];
            cp = (((b0 & 0x07) as u32) << 18u32) | (((b1 & 0x3f) as u32) << 12u32) | (((b2
                & 0x3f) as u32) << 6u32) | ((b3 & 0x3f) as u32);
            ok = 0x10000 <= cp && cp <= 0x10ffff;
        }
        if ok {
            match char::from_u32(cp) {
                Some(c) => {
                    let attrs = self.current_attrs;
                    self.emit(TerminalEvent::Print { ch: c, attrs });
                },
                None => {},
            }
        }
    }

    /// The byte right after an ESC, shared by the escape state and by the
    /// abandonment paths out of OSC and DCS sequences.
    fn escape_byte(&mut self, b: u8)
        ensures
            final(self).inv(),
            ({
                let (s2, ev) = escape_step(old(self)@.st.attrs, b);
                &&& final(self)@.st == s2
                &&& final(self)@.events == old(self)@.events + opt_events(ev)
            }),
    {
        if b == 0x1b {
            self.mode = Mode::Escape;
        } else if b == 0x5b {
            self.mode = Mode::Csi;
            self.csi_groups = Vec::new();
            self.csi_cur = Vec::new();
            self.csi_val = 0;
            self.csi_seen = false;
            self.csi_count = 0;
            self.csi_ignore = false;
            proof {
                assert(self.csi_groups.deep_view() =~= Seq::<Seq<u16>>::empty());
            }
        } else if b == 0x5d {
            self.mode = Mode::Osc;
            self.osc_params = Vec::new();
            self.osc_cur = Vec::new();
            proof {
                assert(self.osc_params.deep_view() =~= Seq::<Seq<u8>>::empty());
            }
        } else if b == 0x50 {
            self.mode = Mode::Dcs;
        } else {
            self.mode = Mode::Ground;
            self.emit(TerminalEvent::UnhandledEsc(b));
        }
    }

    /// A byte in escape state.
    fn step_escape(&mut self, b: u8)
        requires
            old(self).mode == Mode::Escape,
            old(self).inv(),
        ensures
            final(self).inv(),
            Self::step_post(*old(self), *final(self), b),
    {
        self.escape_byte(b);
    }

    /// A byte inside a CSI sequence: parameter accumulation, abandonment on
    /// ESC, or dispatch on a final byte.
    fn step_csi(&mut self, b: u8)
        requires
            old(self).mode == Mode::Csi,
            old(self).inv(),
        ensures
            final(self).inv(),
            Self::step_post(*old(self), *final(self), b),
    {
        if b == 0x1b {
            self.mode = Mode::Escape;
        } else if 0x30 <= b && b <= 0x39 {
            if !self.csi_ignore {
                let d = (b - 0x30) as u16;
                let w: u32 = (self.csi_val as u32) * 10 + (d as u32);
                self.csi_val = if w > 0xffff {
                    0xffff
                } else {
                    w as u16
                };
                self.csi_seen = true;
            }
        } else if b == 0x3a {
            if !self.csi_ignore {
                if self.csi_count >= MAX_CSI_PARAMS {
                    self.csi_ignore = true;
                } else {
                    self.csi_cur.push(self.csi_val);
                    self.csi_count = self.csi_count + 1;
                    self.csi_val = 0;
                    self.csi_seen = true;
                }
            }
        } else if b == 0x3b {
            if !self.csi_ignore {
                if self.csi_count >= MAX_CSI_PARAMS {
                    self.csi_ignore = true;
                } else {
                    self.close_group();
                    self.csi_count = self.csi_count + 1;
                    self.csi_val = 0;
                    self.csi_seen = true;
                }
            }
        } else if 0x40 <= b && b <= 0x7e {
            self.mode = Mode::Ground;
            if !self.csi_ignore {
                if !self.csi_seen {
                    self.dispatch_csi(b);
                } else if self.csi_count >= MAX_CSI_PARAMS {
                    // The closing value would not fit: the sequence is
                    // dropped whole.
                } else {
                    self.close_group();
                    self.dispatch_csi(b);
                }
            }
        } else {
            // Intermediate bytes, private markers, other C0 bytes, DEL and
            // bytes above ASCII are consumed without effect.
        }
    }

    /// Closes the current parameter group: the accumulated value joins the
    /// current group, which joins the completed groups.
    fn close_group(&mut self)
        ensures
            final(self).mode == old(self).mode,
            final(self).utf8_bytes == old(self).utf8_bytes,
            final(self).csi_groups.deep_view() == old(self).csi_groups.deep_view().push(
                old(self).csi_cur@.push(old(self).csi_val),
            ),
            final(self).csi_cur@ == Seq::<u16>::empty(),
            final(self).csi_val == old(self).csi_val,
            final(self).csi_seen == old(self).csi_seen,
            final(self).csi_count == old(self).csi_count,
            final(self).csi_ignore == old(self).csi_ignore,
            final(self).osc_params == old(self).osc_params,
            final(self).osc_cur == old(self).osc_cur,
            final(self).current_attrs == old(self).current_attrs,
            final(self).events == old(self).events,
    {
        self.csi_cur.push(self.csi_val);
        let mut done: Vec<u16> = Vec::new();
        core::mem::swap(&mut self.csi_cur, &mut done);
        self.csi_groups.push(done);
        proof {
            lemma_groups_view(&old(self).csi_groups);
            lemma_groups_view(&self.csi_groups);
            assert(self.csi_groups.deep_view() =~= old(self).csi_groups.deep_view().push(
                old(self).csi_cur@.push(old(self).csi_val),
            ));
        }
    }

    /// Dispatches a complete CSI sequence whose parameter groups stand in
    /// `csi_groups`, per [`csi_dispatch`].
    fn dispatch_csi(&mut self, b: u8)
        requires
            old(self).mode == Mode::Ground,
        ensures
            final(self).inv(),
            ({
                let (a2, ev) = csi_dispatch(
                    old(self)@.st.attrs,
                    b as char,
                    old(self).csi_groups.deep_view(),
                );
                &&& final(self)@.st == IState { mode: ModeV::Ground, attrs: a2 }
                &&& final(self)@.events == old(self)@.events + opt_events(ev)
            }),
    {
        let action = b as char;
        if action == 'm' {
            apply_sgr(&mut self.current_attrs, &self.csi_groups);
        } else if action == 'H' || action == 'f' {
            let row = Self::first_param(&self.csi_groups, 0, 1);
            let col = Self::first_param(&self.csi_groups, 1, 1);
            self.emit(TerminalEvent::CursorPosition { row, col });
        } else if action == 'A' {
            let n = Self::first_param(&self.csi_groups, 0, 1);
            self.emit(TerminalEvent::CursorUp(n));
        } else if action == 'B' {
            let n = Self::first_param(&self.csi_groups, 0, 1);
            self.emit(TerminalEvent::CursorDown(n));
        } else if action == 'C' {
            let n = Self::first_param(&self.csi_groups, 0, 1);
            self.emit(TerminalEvent::CursorForward(n));
        } else if action == 'D' {
            let n = Self::first_param(&self.csi_groups, 0, 1);
            self.emit(TerminalEvent::CursorBack(n));
        } else if action == 'J' {
            let m = Self::first_param(&self.csi_groups, 0, 0);
            self.emit(TerminalEvent::EraseDisplay(m));
        } else if action == 'K' {
            let m = Self::first_param(&self.csi_groups, 0, 0);
            self.emit(TerminalEvent::EraseLine(m));
        } else if action == 'h' {
            let modes = Self::flatten_params(&self.csi_groups);
            self.emit(TerminalEvent::SetMode(modes));
        } else if action == 'l' {
            let modes = Self::flatten_params(&self.csi_groups);
            self.emit(TerminalEvent::ResetMode(modes));
        } else {
            let params = Self::flatten_params(&self.csi_groups);
            self.emit(TerminalEvent::UnhandledCsi { action, params });
        }
    }

    /// The first value of parameter group `i`, or `d` when absent.
    fn first_param(groups: &Vec<Vec<u16>>, i: usize, d: u16) -> (r: u16)
        ensures
            r == param_or(groups.deep_view(), i as int, d),
    {
        proof {
            lemma_groups_view(groups);
        }
        if i < groups.len() {
            let g = &groups[i];
            if g.len() > 0 {
                g[0]
            } else {
                d
            }
        } else {
            d
        }
    }

    /// Every numeric value from every parameter group, flattened in order.
    fn flatten_params(groups: &Vec<Vec<u16>>) -> (r: Vec<u16>)
        ensures
            r@ == groups.deep_view().flatten(),
    {
        let ghost gv = groups.deep_view();
        proof {
            lemma_groups_view(groups);
            assert(gv.take(0) =~= Seq::<Seq<u16>>::empty());
            assert(Seq::<Seq<u16>>::empty().flatten() =~= Seq::<u16>::empty());
        }
        let mut r: Vec<u16> = Vec::new();
        let mut i: usize = 0;
        while i < groups.len()
            invariant
                gv == groups.deep_view(),
                gv.len() == groups@.len(),
                forall|k: int| 0 <= k < groups@.len() ==> gv[k] == groups@[k]@,
                i <= groups@.len(),
                r@ == gv.take(i as int).flatten(),
            decreases groups@.len() - i,
        {
            let g = &groups[i];
            let mut j: usize = 0;
            while j < g.len()
                invariant
                    gv == groups.deep_view(),
                    gv.len() == groups@.len(),
                    forall|k: int| 0 <= k < groups@.len() ==> gv[k] == groups@[k]@,
                    i < groups@.len(),
                    g@ == groups@[i as int]@,
                    j <= g@.len(),
                    r@ == gv.take(i as int).flatten() + g@.take(j as int),
                decreases g@.len() - j,
            {
                r.push(g[j]);
                proof {
                    assert(g@.take(j as int).push(g@[j as int]) =~= g@.take(j as int + 1));
                    assert(r@ =~= gv.take(i as int).flatten() + g@.take(j as int + 1));
                }
                j = j + 1;
            }
            proof {
                assert(g@.take(g@.len() as int) =~= g@);
                assert(gv.take(i as int).push(gv[i as int]) =~= gv.take(i as int + 1));
                gv.take(i as int).lemma_flatten_push(gv[i as int]);
                assert(gv.take(i as int + 1).flatten() =~= gv.take(i as int).flatten() + g@);
            }
            i = i + 1;
        }
        proof {
            assert(gv.take(groups@.len() as int) =~= gv);
        }
        r
    }

    /// Terminates the OSC sequence in progress: the accumulating parameter
    /// joins the completed ones and the whole list is emitted as one event.
    fn emit_osc(&mut self)
        requires
            old(self).mode == Mode::Ground,
        ensures
            final(self).inv(),
            final(self)@.st == old(self)@.st,
            final(self)@.events == old(self)@.events + opt_events(
                Some(
                    EventV::Osc(old(self).osc_params.deep_view().push(old(self).osc_cur@)),
                ),
            ),
    {
        let mut cur: Vec<u8> = Vec::new();
        core::mem::swap(&mut self.osc_cur, &mut cur);
        self.osc_params.push(cur);
        let mut params: Vec<Vec<u8>> = Vec::new();
        core::mem::swap(&mut self.osc_params, &mut params);
        proof {
            lemma_osc_view(&old(self).osc_params);
            lemma_osc_view(&params);
            assert(params.deep_view() =~= old(self).osc_params.deep_view().push(
                old(self).osc_cur@,
            ));
        }
        self.emit(TerminalEvent::Osc(params));
    }

    /// A byte inside an OSC sequence: payload accumulation, `;` parameter
    /// separation, BEL termination, or ESC (the possible start of ST).
    fn step_osc(&mut self, b: u8)
        requires
            old(self).mode == Mode::Osc,
            old(self).inv(),
        ensures
            final(self).inv(),
            Self::step_post(*old(self), *final(self), b),
    {
        if b == 0x07 {
            self.mode = Mode::Ground;
            self.emit_osc();
        } else if b == 0x1b {
            self.mode = Mode::OscEsc;
        } else if b == 0x3b {
            let mut cur: Vec<u8> = Vec::new();
            core::mem::swap(&mut self.osc_cur, &mut cur);
            self.osc_params.push(cur);
            proof {
                lemma_osc_view(&old(self).osc_params);
                lemma_osc_view(&self.osc_params);
                assert(self.osc_params.deep_view() =~= old(self).osc_params.deep_view().push(
                    old(self).osc_cur@,
                ));
            }
        } else if 0x20 <= b {
            self.osc_cur.push(b);
        } else {
            // Other C0 bytes inside an OSC payload are dropped.
        }
    }

    /// The byte after an ESC inside an OSC sequence: `\` completes ST and
    /// terminates the sequence; anything else abandons it.
    fn step_osc_esc(&mut self, b: u8)
        requires
            old(self).mode == Mode::OscEsc,
            old(self).inv(),
        ensures
            final(self).inv(),
            Self::step_post(*old(self), *final(self), b),
    {
        if b == 0x5c {
            self.mode = Mode::Ground;
            self.emit_osc();
        } else {
            self.escape_byte(b);
        }
    }

    /// A byte inside a DCS sequence: consumed without an event.
    fn step_dcs(&mut self, b: u8)
        requires
            old(self).mode == Mode::Dcs,
            old(self).inv(),
        ensures
            final(self).inv(),
            Self::step_post(*old(self), *final(self), b),
    {
        if b == 0x1b {
            self.mode = Mode::DcsEsc;
        }
    }

    /// The byte after an ESC inside a DCS sequence: `\` completes ST and
    /// ends the sequence (no event); anything else abandons it.
    fn step_dcs_esc(&mut self, b: u8)
        requires
            old(self).mode == Mode::DcsEsc,
            old(self).inv(),
        ensures
            final(self).inv(),
            Self::step_post(*old(self), *final(self), b),
    {
        if b == 0x5c {
            self.mode = Mode::Ground;
        } else {
            self.escape_byte(b);
        }
    }
}

} // verus!
