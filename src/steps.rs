//! Handshake steps: which send and receive actions each role takes for a
//! two-letter pattern, with an optional pre-shared-key tag inserted.
use vstd::prelude::*;

verus! {

/// One action of a role during the handshake.
#[derive(Debug, Clone, Copy, PartialEq, Eq, Structural)]
pub enum HandshakeStep {
    SendEphemeral,
    SendStatic,
    SendPskTag,
    RecvEphemeral,
    RecvStatic,
    RecvPskTag,
    Done,
}

/// Which side of the handshake a party plays.
#[derive(Debug, Clone, Copy, PartialEq, Eq, Structural)]
pub enum Role {
    Initiator,
    Responder,
}

impl Role {
    /// The role's name in lower case.
    pub fn as_str(self) -> (r: &'static str)
        ensures
            r@ == (match self {
                Role::Initiator => "initiator"@,
                Role::Responder => "responder"@,
            }),
    {
        match self {
            Role::Initiator => "initiator",
            Role::Responder => "responder",
        }
    }
}

/// The pattern in use (two letters, e.g. `IK`) and the number of messages
/// sent before the pre-shared key is mixed in.
#[derive(Debug, Clone, Copy, PartialEq, Eq)]
pub struct ModeDescriptor {
    pub pattern: [char; 2],
    pub psk_delay: u8,
}

/// A step that puts a message on the wire: an ephemeral or a static key.
pub open spec fn is_message_send(s: HandshakeStep) -> bool {
    s == HandshakeStep::SendEphemeral || s == HandshakeStep::SendStatic
}

/// A step counted when locating the tag: with `first_ephemeral` the first
/// ephemeral send or receive, otherwise every message send.
pub open spec fn counts_toward_psk(s: HandshakeStep, first_ephemeral: bool) -> bool {
    if first_ephemeral {
        s == HandshakeStep::SendEphemeral || s == HandshakeStep::RecvEphemeral
    } else {
        is_message_send(s)
    }
}

/// The tag that follows `s`: `RecvPskTag` after a receive, `SendPskTag`
/// after a send.
pub open spec fn psk_tag_after(s: HandshakeStep) -> HandshakeStep {
    if s == HandshakeStep::RecvEphemeral {
        HandshakeStep::RecvPskTag
    } else {
        HandshakeStep::SendPskTag
    }
}

/// `steps` with the pre-shared-key tag placed right after the `n`-th counted
/// step (`n >= 1`), or unchanged when there are fewer than `n` of them.
pub open spec fn insert_after_nth(steps: Seq<HandshakeStep>, n: nat, first_ephemeral: bool) -> Seq<
    HandshakeStep,
>
    decreases steps.len(),
{
    if steps.len() == 0 {
        steps
    } else if counts_toward_psk(steps[0], first_ephemeral) && n <= 1 {
        seq![steps[0], psk_tag_after(steps[0])] + steps.drop_first()
    } else if counts_toward_psk(steps[0], first_ephemeral) {
        seq![steps[0]] + insert_after_nth(steps.drop_first(), (n - 1) as nat, first_ephemeral)
    } else {
        seq![steps[0]] + insert_after_nth(steps.drop_first(), n, first_ephemeral)
    }
}

/// The number of steps of `s` that count toward the tag.
pub open spec fn counted_steps(s: Seq<HandshakeStep>, first_ephemeral: bool) -> nat
    decreases s.len(),
{
    if s.len() == 0 {
        0
    } else {
        (if counts_toward_psk(s[0], first_ephemeral) {
            1nat
        } else {
            0nat
        }) + counted_steps(s.drop_first(), first_ephemeral)
    }
}

/// Pre-shared-key placement: with delay 0 the tag follows the first
/// ephemeral send or receive (`SendPskTag` or `RecvPskTag` to match); with
/// delay `k > 0` a `SendPskTag` follows the `k`-th message send.
pub open spec fn with_psk(steps: Seq<HandshakeStep>, delay: nat) -> Seq<HandshakeStep> {
    if delay == 0 {
        insert_after_nth(steps, 1, true)
    } else {
        insert_after_nth(steps, delay, false)
    }
}

pub open spec fn opt_step(cond: bool, s: HandshakeStep) -> Seq<HandshakeStep> {
    if cond {
        seq![s]
    } else {
        seq![]
    }
}

/// The initiator's steps before any pre-shared-key tag, for pattern `ab`.
pub open spec fn base_initiator(a: char, b: char) -> Seq<HandshakeStep> {
    opt_step(a == 'I', HandshakeStep::SendStatic) + seq![HandshakeStep::SendEphemeral] + opt_step(
        a == 'N' || a == 'X',
        HandshakeStep::SendStatic,
    ) + seq![HandshakeStep::RecvEphemeral] + opt_step(
        a != 'I' && a != 'X' && (b == 'K' || b == 'X'),
        HandshakeStep::SendStatic,
    ) + seq![HandshakeStep::Done]
}

/// The responder's steps before any pre-shared-key tag, for pattern `ab`.
pub open spec fn base_responder(a: char, b: char) -> Seq<HandshakeStep> {
    seq![HandshakeStep::RecvEphemeral] + opt_step(a == 'I', HandshakeStep::RecvStatic) + seq![
        HandshakeStep::SendEphemeral,
    ] + opt_step(b != 'K', HandshakeStep::SendStatic) + seq![HandshakeStep::Done]
}

impl ModeDescriptor {
    pub open spec fn spec_initiator_steps(self) -> Seq<HandshakeStep> {
        with_psk(base_initiator(self.pattern[0], self.pattern[1]), self.psk_delay as nat)
    }

    pub open spec fn spec_responder_steps(self) -> Seq<HandshakeStep> {
        with_psk(base_responder(self.pattern[0], self.pattern[1]), self.psk_delay as nat)
    }

    pub open spec fn spec_steps(self, role: Role) -> Seq<HandshakeStep> {
        match role {
            Role::Initiator => self.spec_initiator_steps(),
            Role::Responder => self.spec_responder_steps(),
        }
    }

    fn inject_psk(steps: &mut Vec<HandshakeStep>, delay: u8)
        ensures
            final(steps)@ == with_psk(old(steps)@, delay as nat),
    {
        let first_ephemeral = delay == 0;
        let ghost n0: nat = if delay == 0 {
            1
        } else {
            delay as nat
        };
        let mut remaining: u8 = if delay == 0 {
            1
        } else {
            delay
        };
        let mut placed = false;
        let mut out: Vec<HandshakeStep> = Vec::new();
        let len = steps.len();
        let mut i: usize = 0;
        assert(steps@.skip(0) =~= steps@);
        assert(out@ + insert_after_nth(steps@, n0, first_ephemeral) =~= insert_after_nth(
            steps@,
            n0,
            first_ephemeral,
        ));
        while i < len
            invariant
                len == steps@.len(),
                i <= len,
                remaining >= 1,
                insert_after_nth(steps@, n0, first_ephemeral) == out@ + (if placed {
                    steps@.skip(i as int)
                } else {
                    insert_after_nth(steps@.skip(i as int), remaining as nat, first_ephemeral)
                }),
            decreases len - i,
        {
            let s = steps[i];
            let ghost rest = steps@.skip(i as int);
            let ghost out0 = out@;
            let ghost rem0 = remaining as nat;
            let ghost placed0 = placed;
            assert(rest[0] == s);
            assert(rest.drop_first() =~= steps@.skip(i + 1));
            out.push(s);
            if !placed {
                let counted = if first_ephemeral {
                    s == HandshakeStep::SendEphemeral || s == HandshakeStep::RecvEphemeral
                } else {
                    s == HandshakeStep::SendEphemeral || s == HandshakeStep::SendStatic
                };
                assert(counted == counts_toward_psk(s, first_ephemeral));
                if counted {
                    if remaining == 1 {
                        let tag = if s == HandshakeStep::RecvEphemeral {
                            HandshakeStep::RecvPskTag
                        } else {
                            HandshakeStep::SendPskTag
                        };
                        out.push(tag);
                        placed = true;
                    } else {
                        remaining = remaining - 1;
                    }
                }
            }
            proof {
                if placed0 {
                    assert(out0 + rest =~= out@ + steps@.skip(i + 1));
                } else if placed {
                    assert(out0 + insert_after_nth(rest, rem0, first_ephemeral) =~= out@ + steps@.skip(
                        i + 1,
                    ));
                } else {
                    assert(out0 + insert_after_nth(rest, rem0, first_ephemeral) =~= out@
                        + insert_after_nth(steps@.skip(i + 1), remaining as nat, first_ephemeral));
                }
            }
            i = i + 1;
        }
        assert(steps@.skip(len as int) =~= Seq::<HandshakeStep>::empty());
        *steps = out;
    }

    /// Steps that the initiator takes.
    pub fn initiator_steps(&self) -> (r: Vec<HandshakeStep>)
        ensures
            r@ == self.spec_initiator_steps(),
    {
        let mut steps = self.base_initiator_steps();
        Self::inject_psk(&mut steps, self.psk_delay);
        steps
    }

    fn base_initiator_steps(&self) -> (r: Vec<HandshakeStep>)
        ensures
            r@ == base_initiator(self.pattern[0], self.pattern[1]),
    {
        let a = self.pattern[0];
        let b = self.pattern[1];
        let mut out: Vec<HandshakeStep> = Vec::new();
        if a == 'I' {
            out.push(HandshakeStep::SendStatic);
        }
        out.push(HandshakeStep::SendEphemeral);
        if a == 'N' || a == 'X' {
            out.push(HandshakeStep::SendStatic);
        }
        out.push(HandshakeStep::RecvEphemeral);
        if a != 'I' && a != 'X' && (b == 'K' || b == 'X') {
            out.push(HandshakeStep::SendStatic);
        }
        out.push(HandshakeStep::Done);
        assert(out@ =~= base_initiator(a, b));
        out
    }

    /// Steps that the responder takes.
    pub fn responder_steps(&self) -> (r: Vec<HandshakeStep>)
        ensures
            r@ == self.spec_responder_steps(),
    {
        let mut steps = self.base_responder_steps();
        Self::inject_psk(&mut steps, self.psk_delay);
        steps
    }

    fn base_responder_steps(&self) -> (r: Vec<HandshakeStep>)
        ensures
            r@ == base_responder(self.pattern[0], self.pattern[1]),
    {
        let a = self.pattern[0];
        let b = self.pattern[1];
        let mut out: Vec<HandshakeStep> = Vec::new();
        out.push(HandshakeStep::RecvEphemeral);
        if a == 'I' {
            out.push(HandshakeStep::RecvStatic);
        }
        out.push(HandshakeStep::SendEphemeral);
        if b != 'K' {
            out.push(HandshakeStep::SendStatic);
        }
        out.push(HandshakeStep::Done);
        assert(out@ =~= base_responder(a, b));
        out
    }

    /// Steps of the given role.
    pub fn steps(&self, role: Role) -> (r: Vec<HandshakeStep>)
        ensures
            r@ == self.spec_steps(role),
    {
        match role {
            Role::Initiator => self.initiator_steps(),
            Role::Responder => self.responder_steps(),
        }
    }
}

/// When there are fewer counted steps than the delay asks for, no tag is
/// inserted and the steps are returned unchanged.
pub proof fn lemma_no_tag_past_last_message(steps: Seq<HandshakeStep>, n: nat, first_ephemeral: bool)
    requires
        counted_steps(steps, first_ephemeral) < n,
    ensures
        insert_after_nth(steps, n, first_ephemeral) == steps,
    decreases steps.len(),
{
    if steps.len() > 0 {
        let t = steps.drop_first();
        if counts_toward_psk(steps[0], first_ephemeral) {
            lemma_no_tag_past_last_message(t, (n - 1) as nat, first_ephemeral);
        } else {
            lemma_no_tag_past_last_message(t, n, first_ephemeral);
        }
        assert(seq![steps[0]] + t =~= steps);
    }
}

/// A delay larger than the number of message sends of a role leaves that
/// role's steps without a tag.
pub proof fn lemma_large_delay_adds_no_tag(steps: Seq<HandshakeStep>, delay: nat)
    requires
        delay > 0,
        counted_steps(steps, false) < delay,
    ensures
        with_psk(steps, delay) == steps,
{
    lemma_no_tag_past_last_message(steps, delay, false);
}

/// `s` ends with `Done`, and no other step of it is `Done`.
pub open spec fn ends_with_single_done(s: Seq<HandshakeStep>) -> bool {
    &&& s.len() > 0
    &&& s.last() == HandshakeStep::Done
    &&& forall|i: int| 0 <= i < s.len() - 1 ==> s[i] != HandshakeStep::Done
}

/// The message sends of `s`, in order.
pub open spec fn wire_sent(s: Seq<HandshakeStep>) -> Seq<HandshakeStep>
    decreases s.len(),
{
    if s.len() == 0 {
        seq![]
    } else {
        opt_step(is_message_send(s[0]), s[0]) + wire_sent(s.drop_first())
    }
}

/// The message receipts of `s`, in order, each written as the send it answers.
pub open spec fn wire_received(s: Seq<HandshakeStep>) -> Seq<HandshakeStep>
    decreases s.len(),
{
    if s.len() == 0 {
        seq![]
    } else {
        opt_step(s[0] == HandshakeStep::RecvEphemeral, HandshakeStep::SendEphemeral) + opt_step(
            s[0] == HandshakeStep::RecvStatic,
            HandshakeStep::SendStatic,
        ) + wire_received(s.drop_first())
    }
}

proof fn lemma_insert_keeps_single_done(s: Seq<HandshakeStep>, n: nat, first_ephemeral: bool)
    requires
        ends_with_single_done(s),
    ensures
        ends_with_single_done(insert_after_nth(s, n, first_ephemeral)),
    decreases s.len(),
{
    let r = insert_after_nth(s, n, first_ephemeral);
    if s.len() == 1 {
        assert(s.drop_first() =~= Seq::<HandshakeStep>::empty());
        assert(insert_after_nth(s.drop_first(), n, first_ephemeral) =~= Seq::<HandshakeStep>::empty());
        assert(r =~= s);
    } else {
        let t = s.drop_first();
        assert(s[0] != HandshakeStep::Done);
        assert(t.last() == s.last());
        assert forall|i: int| 0 <= i < t.len() - 1 implies t[i] != HandshakeStep::Done by {
            assert(t[i] == s[i + 1]);
        }
        if counts_toward_psk(s[0], first_ephemeral) && n <= 1 {
            assert(r =~= seq![s[0], psk_tag_after(s[0])] + t);
            assert forall|i: int| 0 <= i < r.len() - 1 implies r[i] != HandshakeStep::Done by {
                if i >= 2 {
                    assert(r[i] == t[i - 2]);
                }
            }
        } else {
            let m: nat = if counts_toward_psk(s[0], first_ephemeral) {
                (n - 1) as nat
            } else {
                n
            };
            lemma_insert_keeps_single_done(t, m, first_ephemeral);
            let rt = insert_after_nth(t, m, first_ephemeral);
            assert(r =~= seq![s[0]] + rt);
            assert forall|i: int| 0 <= i < r.len() - 1 implies r[i] != HandshakeStep::Done by {
                if i >= 1 {
                    assert(r[i] == rt[i - 1]);
                }
            }
        }
    }
}

proof fn lemma_no_done_add(x: Seq<HandshakeStep>, y: Seq<HandshakeStep>)
    requires
        forall|i: int| 0 <= i < x.len() ==> x[i] != HandshakeStep::Done,
        forall|i: int| 0 <= i < y.len() ==> y[i] != HandshakeStep::Done,
    ensures
        forall|i: int| 0 <= i < (x + y).len() ==> (x + y)[i] != HandshakeStep::Done,
{
    assert forall|i: int| 0 <= i < (x + y).len() implies (x + y)[i] != HandshakeStep::Done by {
        if i >= x.len() {
            assert((x + y)[i] == y[i - x.len()]);
        }
    }
}

/// Every derived sequence, of either role and for any pattern and delay,
/// ends with exactly one `Done`.
pub proof fn lemma_steps_end_with_single_done(mode: ModeDescriptor, role: Role)
    ensures
        ends_with_single_done(mode.spec_steps(role)),
{
    let a = mode.pattern[0];
    let b = mode.pattern[1];
    let base = match role {
        Role::Initiator => base_initiator(a, b),
        Role::Responder => base_responder(a, b),
    };
    let head = base.drop_last();
    assert(base =~= head + seq![HandshakeStep::Done]) by {
        match role {
            Role::Initiator => {
                let p = opt_step(a == 'I', HandshakeStep::SendStatic) + seq![HandshakeStep::SendEphemeral]
                    + opt_step(a == 'N' || a == 'X', HandshakeStep::SendStatic)
                    + seq![HandshakeStep::RecvEphemeral] + opt_step(
                    a != 'I' && a != 'X' && (b == 'K' || b == 'X'),
                    HandshakeStep::SendStatic,
                );
                assert(base =~= p + seq![HandshakeStep::Done]);
                assert(head =~= p);
            },
            Role::Responder => {
                let p = seq![HandshakeStep::RecvEphemeral] + opt_step(a == 'I', HandshakeStep::RecvStatic)
                    + seq![HandshakeStep::SendEphemeral] + opt_step(b != 'K', HandshakeStep::SendStatic);
                assert(base =~= p + seq![HandshakeStep::Done]);
                assert(head =~= p);
            },
        }
    }
    assert forall|i: int| 0 <= i < head.len() implies head[i] != HandshakeStep::Done by {
        match role {
            Role::Initiator => {
                let h1 = opt_step(a == 'I', HandshakeStep::SendStatic) + seq![HandshakeStep::SendEphemeral];
                let h2 = h1 + opt_step(a == 'N' || a == 'X', HandshakeStep::SendStatic);
                let h3 = h2 + seq![HandshakeStep::RecvEphemeral];
                let h4 = h3 + opt_step(
                    a != 'I' && a != 'X' && (b == 'K' || b == 'X'),
                    HandshakeStep::SendStatic,
                );
                assert(head =~= h4);
                lemma_no_done_add(opt_step(a == 'I', HandshakeStep::SendStatic), seq![HandshakeStep::SendEphemeral]);
                lemma_no_done_add(h1, opt_step(a == 'N' || a == 'X', HandshakeStep::SendStatic));
                lemma_no_done_add(h2, seq![HandshakeStep::RecvEphemeral]);
                lemma_no_done_add(h3, opt_step(
                    a != 'I' && a != 'X' && (b == 'K' || b == 'X'),
                    HandshakeStep::SendStatic,
                ));
            },
            Role::Responder => {
                let h1 = seq![HandshakeStep::RecvEphemeral] + opt_step(a == 'I', HandshakeStep::RecvStatic);
                let h2 = h1 + seq![HandshakeStep::SendEphemeral];
                let h3 = h2 + opt_step(b != 'K', HandshakeStep::SendStatic);
                assert(head =~= h3);
                lemma_no_done_add(seq![HandshakeStep::RecvEphemeral], opt_step(a == 'I', HandshakeStep::RecvStatic));
                lemma_no_done_add(h1, seq![HandshakeStep::SendEphemeral]);
                lemma_no_done_add(h2, opt_step(b != 'K', HandshakeStep::SendStatic));
            },
        }
    }
    assert(ends_with_single_done(base)) by {
        assert forall|i: int| 0 <= i < base.len() - 1 implies base[i] != HandshakeStep::Done by {
            assert(base[i] == head[i]);
        }
    }
    if mode.psk_delay == 0 {
        lemma_insert_keeps_single_done(base, 1, true);
    } else {
        lemma_insert_keeps_single_done(base, mode.psk_delay as nat, false);
    }
}

/// `s` without its `RecvStatic` steps.
pub open spec fn without_recv_static(s: Seq<HandshakeStep>) -> Seq<HandshakeStep>
    decreases s.len(),
{
    if s.len() == 0 {
        s
    } else {
        opt_step(s[0] != HandshakeStep::RecvStatic, s[0]) + without_recv_static(s.drop_first())
    }
}

/// A role's steps without its pre-message step: for an `I` pattern the
/// initiator's leading `SendStatic` and the responder's `RecvStatic` that
/// answers it.
pub open spec fn without_pre_message(steps: Seq<HandshakeStep>, a: char, role: Role) -> Seq<HandshakeStep> {
    if a == 'I' {
        match role {
            Role::Initiator => steps.drop_first(),
            Role::Responder => without_recv_static(steps),
        }
    } else {
        steps
    }
}

/// For the `IK` pattern, whatever the delay, each message the initiator sends
/// (past its pre-message step) is received by the responder in the same
/// order, and each message the responder sends is received by the initiator
/// in the same order. Pre-shared-key tags are local events and are not
/// messages.
pub proof fn lemma_ik_roles_pair_up(mode: ModeDescriptor)
    requires
        mode.pattern[0] == 'I',
        mode.pattern[1] == 'K',
    ensures
        wire_sent(without_pre_message(mode.spec_initiator_steps(), 'I', Role::Initiator))
            == wire_received(without_pre_message(mode.spec_responder_steps(), 'I', Role::Responder)),
        wire_sent(mode.spec_responder_steps()) == wire_received(mode.spec_initiator_steps()),
{
    reveal_with_fuel(insert_after_nth, 6);
    reveal_with_fuel(wire_sent, 6);
    reveal_with_fuel(wire_received, 6);
    reveal_with_fuel(without_recv_static, 6);
    let ini = mode.spec_initiator_steps();
    let res = mode.spec_responder_steps();
    assert(base_initiator('I', 'K') =~= seq![
        HandshakeStep::SendStatic,
        HandshakeStep::SendEphemeral,
        HandshakeStep::RecvEphemeral,
        HandshakeStep::Done,
    ]);
    assert(base_responder('I', 'K') =~= seq![
        HandshakeStep::RecvEphemeral,
        HandshakeStep::RecvStatic,
        HandshakeStep::SendEphemeral,
        HandshakeStep::Done,
    ]);
    let e = HandshakeStep::SendEphemeral;
    if mode.psk_delay == 0 {
        assert(ini =~= seq![HandshakeStep::SendStatic, e, HandshakeStep::SendPskTag, HandshakeStep::RecvEphemeral, HandshakeStep::Done]);
        assert(res =~= seq![HandshakeStep::RecvEphemeral, HandshakeStep::RecvPskTag, HandshakeStep::RecvStatic, e, HandshakeStep::Done]);
    } else if mode.psk_delay == 1 {
        assert(ini =~= seq![HandshakeStep::SendStatic, HandshakeStep::SendPskTag, e, HandshakeStep::RecvEphemeral, HandshakeStep::Done]);
        assert(res =~= seq![HandshakeStep::RecvEphemeral, HandshakeStep::RecvStatic, e, HandshakeStep::SendPskTag, HandshakeStep::Done]);
    } else if mode.psk_delay == 2 {
        assert(ini =~= seq![HandshakeStep::SendStatic, e, HandshakeStep::SendPskTag, HandshakeStep::RecvEphemeral, HandshakeStep::Done]);
        assert(res =~= seq![HandshakeStep::RecvEphemeral, HandshakeStep::RecvStatic, e, HandshakeStep::Done]);
    } else {
        assert(ini =~= seq![HandshakeStep::SendStatic, e, HandshakeStep::RecvEphemeral, HandshakeStep::Done]);
        assert(res =~= seq![HandshakeStep::RecvEphemeral, HandshakeStep::RecvStatic, e, HandshakeStep::Done]);
    }
    let ini_m = without_pre_message(ini, 'I', Role::Initiator);
    let res_m = without_pre_message(res, 'I', Role::Responder);
    assert(wire_sent(ini_m) =~= seq![e]);
    assert(wire_received(res_m) =~= seq![e]);
    assert(wire_sent(res) =~= seq![e]);
    assert(wire_received(ini) =~= seq![e]);
}

} // verus!
