//! The message flow of a handshake pattern: which role sends each message,
//! which Diffie-Hellman operations it carries, and where a pre-shared-key
//! event falls.
use vstd::prelude::*;
use vstd::string::StringSliceAdditionalSpecFns;

use crate::grammar::{decimal_value, is_decimal, parse_decimal, plus_index, to_upper, upper, PatternError};
use crate::steps::Role;

verus! {

/// The supported handshake patterns.
#[derive(Debug, Clone, Copy, PartialEq, Eq, Structural)]
pub enum HandshakePattern {
    N,
    K,
    X,
    NN,
    NK,
    NX,
    XN,
    XK,
    XX,
    KN,
    KK,
    KX,
    IN,
    IK,
    IX,
    XXfallback,
}

/// A Diffie-Hellman operation of a message.
#[derive(Debug, Clone, Copy, PartialEq, Eq, Structural)]
pub enum Steps {
    Ee,
    Es,
    Se,
    Ss,
}

/// The byte of an ASCII character.
pub open spec fn b(c: char) -> u8 {
    c as u8
}

/// The name of `p`, as bytes.
pub open spec fn pattern_name(p: HandshakePattern) -> Seq<u8> {
    match p {
        HandshakePattern::N => seq![b('N')],
        HandshakePattern::K => seq![b('K')],
        HandshakePattern::X => seq![b('X')],
        HandshakePattern::NN => seq![b('N'), b('N')],
        HandshakePattern::NK => seq![b('N'), b('K')],
        HandshakePattern::NX => seq![b('N'), b('X')],
        HandshakePattern::XN => seq![b('X'), b('N')],
        HandshakePattern::XK => seq![b('X'), b('K')],
        HandshakePattern::XX => seq![b('X'), b('X')],
        HandshakePattern::KN => seq![b('K'), b('N')],
        HandshakePattern::KK => seq![b('K'), b('K')],
        HandshakePattern::KX => seq![b('K'), b('X')],
        HandshakePattern::IN => seq![b('I'), b('N')],
        HandshakePattern::IK => seq![b('I'), b('K')],
        HandshakePattern::IX => seq![b('I'), b('X')],
        HandshakePattern::XXfallback => seq![
            b('X'),
            b('X'),
            b('f'),
            b('a'),
            b('l'),
            b('l'),
            b('b'),
            b('a'),
            b('c'),
            b('k'),
        ],
    }
}

/// The role that sends each message slot of `p`, before any pre-shared key.
pub open spec fn spec_base_order(p: HandshakePattern) -> Seq<Role> {
    let i = Role::Initiator;
    let r = Role::Responder;
    match p {
        HandshakePattern::N | HandshakePattern::K | HandshakePattern::X => seq![i],
        HandshakePattern::NN | HandshakePattern::NK | HandshakePattern::NX | HandshakePattern::XN
        | HandshakePattern::KN | HandshakePattern::IN => seq![i, r, i],
        _ => seq![i, r, i, r],
    }
}

/// The Diffie-Hellman operations of each message of `p`, in order.
pub open spec fn message_dhs(p: HandshakePattern) -> Seq<Seq<Steps>> {
    let ee = Steps::Ee;
    let es = Steps::Es;
    let se = Steps::Se;
    let ss = Steps::Ss;
    match p {
        HandshakePattern::N => seq![seq![es]],
        HandshakePattern::K => seq![seq![es, ss]],
        HandshakePattern::X => seq![seq![es, ss]],
        HandshakePattern::NN => seq![seq![], seq![ee]],
        HandshakePattern::NK => seq![seq![es], seq![ee]],
        HandshakePattern::NX => seq![seq![], seq![ee, es]],
        HandshakePattern::XN => seq![seq![], seq![ee], seq![se]],
        HandshakePattern::XK => seq![seq![es], seq![ee], seq![se]],
        HandshakePattern::XX => seq![seq![], seq![ee, es], seq![se]],
        HandshakePattern::XXfallback => seq![seq![ee, es], seq![ee, se], seq![se]],
        HandshakePattern::KN => seq![seq![ss], seq![ee, se]],
        HandshakePattern::KK => seq![seq![es, ss], seq![ee, se]],
        HandshakePattern::KX => seq![seq![ss], seq![ee, se, es]],
        HandshakePattern::IN => seq![seq![], seq![ee, se]],
        HandshakePattern::IK => seq![seq![es, ss], seq![ee, se]],
        HandshakePattern::IX => seq![seq![], seq![ee, se, es]],
    }
}

/// One entry of a flow: a message of `from` with its Diffie-Hellman
/// operations, or (with `psk` set and no operations) a pre-shared-key event.
pub struct Step {
    pub from: Role,
    pub psk: Option<usize>,
    pub dhs: Vec<Steps>,
}

/// What a `Step` holds.
pub ghost struct StepView {
    pub from: Role,
    pub psk: Option<usize>,
    pub dhs: Seq<Steps>,
}

impl View for Step {
    type V = StepView;

    open spec fn view(&self) -> StepView {
        StepView { from: self.from, psk: self.psk, dhs: self.dhs@ }
    }
}

/// The entries for message `i` of `p`: the pre-shared-key event when `psk`
/// is `i`, then the message.
pub open spec fn message_block(p: HandshakePattern, psk: Option<usize>, i: int) -> Seq<StepView> {
    let from = spec_base_order(p)[i];
    let event = StepView { from, psk: psk, dhs: seq![] };
    let message = StepView { from, psk: None, dhs: message_dhs(p)[i] };
    if psk == Some(i as usize) {
        seq![event, message]
    } else {
        seq![message]
    }
}

/// The entries for the first `n` messages of `p`.
pub open spec fn flow_upto(p: HandshakePattern, psk: Option<usize>, n: int) -> Seq<StepView>
    decreases n,
{
    if n <= 0 {
        seq![]
    } else {
        flow_upto(p, psk, n - 1) + message_block(p, psk, n - 1)
    }
}

/// The whole flow of `p`: every message, with a trailing pre-shared-key
/// event from the last message's sender when `psk` equals the number of
/// messages.
pub open spec fn spec_flow(p: HandshakePattern, psk: Option<usize>) -> Seq<StepView> {
    let order = spec_base_order(p);
    let count = message_dhs(p).len();
    let tail = if psk == Some(count as usize) {
        seq![StepView { from: order[count - 1], psk: psk, dhs: seq![] }]
    } else {
        seq![]
    };
    flow_upto(p, psk, message_dhs(p).len() as int) + tail
}

/// Whether `a` and `b` are the same text up to the case of ASCII letters.
pub open spec fn same_ignoring_case(a: Seq<u8>, b: Seq<u8>) -> bool {
    a.len() == b.len() && forall|i: int| 0 <= i < a.len() ==> upper(a[i]) == upper(b[i])
}

/// The pattern named by `name`, letters in any case, if any.
pub open spec fn pattern_of(name: Seq<u8>) -> Option<HandshakePattern> {
    if same_ignoring_case(name, pattern_name(HandshakePattern::N)) {
        Some(HandshakePattern::N)
    } else if same_ignoring_case(name, pattern_name(HandshakePattern::K)) {
        Some(HandshakePattern::K)
    } else if same_ignoring_case(name, pattern_name(HandshakePattern::X)) {
        Some(HandshakePattern::X)
    } else if same_ignoring_case(name, pattern_name(HandshakePattern::NN)) {
        Some(HandshakePattern::NN)
    } else if same_ignoring_case(name, pattern_name(HandshakePattern::NK)) {
        Some(HandshakePattern::NK)
    } else if same_ignoring_case(name, pattern_name(HandshakePattern::NX)) {
        Some(HandshakePattern::NX)
    } else if same_ignoring_case(name, pattern_name(HandshakePattern::XN)) {
        Some(HandshakePattern::XN)
    } else if same_ignoring_case(name, pattern_name(HandshakePattern::XK)) {
        Some(HandshakePattern::XK)
    } else if same_ignoring_case(name, pattern_name(HandshakePattern::XX)) {
        Some(HandshakePattern::XX)
    } else if same_ignoring_case(name, pattern_name(HandshakePattern::KN)) {
        Some(HandshakePattern::KN)
    } else if same_ignoring_case(name, pattern_name(HandshakePattern::KK)) {
        Some(HandshakePattern::KK)
    } else if same_ignoring_case(name, pattern_name(HandshakePattern::KX)) {
        Some(HandshakePattern::KX)
    } else if same_ignoring_case(name, pattern_name(HandshakePattern::IN)) {
        Some(HandshakePattern::IN)
    } else if same_ignoring_case(name, pattern_name(HandshakePattern::IK)) {
        Some(HandshakePattern::IK)
    } else if same_ignoring_case(name, pattern_name(HandshakePattern::IX)) {
        Some(HandshakePattern::IX)
    } else if same_ignoring_case(name, pattern_name(HandshakePattern::XXfallback)) {
        Some(HandshakePattern::XXfallback)
    } else {
        None
    }
}

/// What `parse_full` gives for the bytes `s`.
pub open spec fn spec_parse_full(s: Seq<u8>) -> Result<(HandshakePattern, Option<usize>), PatternError> {
    let k = plus_index(s);
    let name = s.take(k as int);
    let suffix = s.skip((k + 1) as int);
    if k < s.len() && plus_index(suffix) < suffix.len() {
        Err(PatternError::InvalidPattern)
    } else if pattern_of(name) is None {
        Err(PatternError::InvalidPattern)
    } else if k == s.len() {
        Ok((pattern_of(name)->Some_0, None))
    } else if suffix.len() >= 3 && suffix[0] == b('p') && suffix[1] == b('s') && suffix[2] == b('k')
        && is_decimal(suffix.skip(3)) && decimal_value(suffix.skip(3)) <= usize::MAX {
        Ok(
            (
                pattern_of(name)->Some_0,
                Some(decimal_value(suffix.skip(3)) as usize),
            ),
        )
    } else {
        Err(PatternError::InvalidPskSuffix)
    }
}

/// Whether `b[..end]` equals `name` up to the case of ASCII letters.
fn prefix_equals(b: &[u8], end: usize, name: &[u8]) -> (r: bool)
    requires
        end <= b@.len(),
    ensures
        r == same_ignoring_case(b@.take(end as int), name@),
{
    if end != name.len() {
        return false;
    }
    let mut i: usize = 0;
    while i < end
        invariant
            i <= end,
            end == name@.len(),
            end <= b@.len(),
            forall|j: int| 0 <= j < i ==> upper(b@[j]) == upper(name@[j]),
        decreases end - i,
    {
        if to_upper(b[i]) != to_upper(name[i]) {
            assert(upper(b@.take(end as int)[i as int]) != upper(name@[i as int]));
            return false;
        }
        i = i + 1;
    }
    true
}

/// The pattern named by `b[..end]`, if any.
fn pattern_from_bytes(b: &[u8], end: usize) -> (r: Option<HandshakePattern>)
    requires
        end <= b@.len(),
    ensures
        r == pattern_of(b@.take(end as int)),
{
    let name: [u8; 1] = ['N' as u8];
    assert(name@ =~= pattern_name(HandshakePattern::N));
    if prefix_equals(b, end, name.as_slice()) {
        return Some(HandshakePattern::N);
    }
    let name: [u8; 1] = ['K' as u8];
    assert(name@ =~= pattern_name(HandshakePattern::K));
    if prefix_equals(b, end, name.as_slice()) {
        return Some(HandshakePattern::K);
    }
    let name: [u8; 1] = ['X' as u8];
    assert(name@ =~= pattern_name(HandshakePattern::X));
    if prefix_equals(b, end, name.as_slice()) {
        return Some(HandshakePattern::X);
    }
    let name: [u8; 2] = ['N' as u8, 'N' as u8];
    assert(name@ =~= pattern_name(HandshakePattern::NN));
    if prefix_equals(b, end, name.as_slice()) {
        return Some(HandshakePattern::NN);
    }
    let name: [u8; 2] = ['N' as u8, 'K' as u8];
    assert(name@ =~= pattern_name(HandshakePattern::NK));
    if prefix_equals(b, end, name.as_slice()) {
        return Some(HandshakePattern::NK);
    }
    let name: [u8; 2] = ['N' as u8, 'X' as u8];
    assert(name@ =~= pattern_name(HandshakePattern::NX));
    if prefix_equals(b, end, name.as_slice()) {
        return Some(HandshakePattern::NX);
    }
    let name: [u8; 2] = ['X' as u8, 'N' as u8];
    assert(name@ =~= pattern_name(HandshakePattern::XN));
    if prefix_equals(b, end, name.as_slice()) {
        return Some(HandshakePattern::XN);
    }
    let name: [u8; 2] = ['X' as u8, 'K' as u8];
    assert(name@ =~= pattern_name(HandshakePattern::XK));
    if prefix_equals(b, end, name.as_slice()) {
        return Some(HandshakePattern::XK);
    }
    let name: [u8; 2] = ['X' as u8, 'X' as u8];
    assert(name@ =~= pattern_name(HandshakePattern::XX));
    if prefix_equals(b, end, name.as_slice()) {
        return Some(HandshakePattern::XX);
    }
    let name: [u8; 2] = ['K' as u8, 'N' as u8];
    assert(name@ =~= pattern_name(HandshakePattern::KN));
    if prefix_equals(b, end, name.as_slice()) {
        return Some(HandshakePattern::KN);
    }
    let name: [u8; 2] = ['K' as u8, 'K' as u8];
    assert(name@ =~= pattern_name(HandshakePattern::KK));
    if prefix_equals(b, end, name.as_slice()) {
        return Some(HandshakePattern::KK);
    }
    let name: [u8; 2] = ['K' as u8, 'X' as u8];
    assert(name@ =~= pattern_name(HandshakePattern::KX));
    if prefix_equals(b, end, name.as_slice()) {
        return Some(HandshakePattern::KX);
    }
    let name: [u8; 2] = ['I' as u8, 'N' as u8];
    assert(name@ =~= pattern_name(HandshakePattern::IN));
    if prefix_equals(b, end, name.as_slice()) {
        return Some(HandshakePattern::IN);
    }
    let name: [u8; 2] = ['I' as u8, 'K' as u8];
    assert(name@ =~= pattern_name(HandshakePattern::IK));
    if prefix_equals(b, end, name.as_slice()) {
        return Some(HandshakePattern::IK);
    }
    let name: [u8; 2] = ['I' as u8, 'X' as u8];
    assert(name@ =~= pattern_name(HandshakePattern::IX));
    if prefix_equals(b, end, name.as_slice()) {
        return Some(HandshakePattern::IX);
    }
    let name: [u8; 10] = ['X' as u8, 'X' as u8, 'f' as u8, 'a' as u8, 'l' as u8, 'l' as u8, 'b' as u8, 'a' as u8, 'c' as u8, 'k' as u8];
    assert(name@ =~= pattern_name(HandshakePattern::XXfallback));
    if prefix_equals(b, end, name.as_slice()) {
        return Some(HandshakePattern::XXfallback);
    }
    None
}

impl HandshakePattern {
    /// The pattern named `s`, letters in any case, such as `XX` or `xxFallback`.
    pub fn parse(s: &str) -> (r: Result<HandshakePattern, PatternError>)
        ensures
            match pattern_of(s.spec_bytes()) {
                Some(p) => r == Ok::<HandshakePattern, PatternError>(p),
                None => r == Err::<HandshakePattern, PatternError>(PatternError::InvalidPattern),
            },
    {
        let b = s.as_bytes();
        assert(b@.take(b@.len() as int) =~= b@);
        match pattern_from_bytes(b, b.len()) {
            Some(p) => Ok(p),
            None => Err(PatternError::InvalidPattern),
        }
    }
}

impl std::str::FromStr for HandshakePattern {
    type Err = PatternError;

    fn from_str(s: &str) -> Result<Self, Self::Err> {
        HandshakePattern::parse(s)
    }
}

/// Parses a name such as `XX+psk1` or `xxfallback+psk0` (letters in any
/// case) into its pattern and pre-shared-key position (`None` without a
/// suffix).
pub fn parse_full(s: &str) -> (r: Result<(HandshakePattern, Option<usize>), PatternError>)
    ensures
        r == spec_parse_full(s.spec_bytes()),
{
    let b = s.as_bytes();
    let len = b.len();
    let k = crate::grammar::find_plus(b);
    if k < len {
        let j = crate::grammar::find_plus_from(b, k + 1);
        if j < len {
            return Err(PatternError::InvalidPattern);
        }
    }
    let pat = match pattern_from_bytes(b, k) {
        Some(p) => p,
        None => {
            return Err(PatternError::InvalidPattern);
        },
    };
    if k == len {
        return Ok((pat, None));
    }
    let start = k + 1;
    if len - start < 3 || b[start] != 'p' as u8 || b[start + 1] != 's' as u8 || b[start + 2]
        != 'k' as u8 {
        return Err(PatternError::InvalidPskSuffix);
    }
    assert(b@.skip(start as int).skip(3) =~= b@.skip(start + 3));
    match parse_decimal(b, start + 3) {
        Some(v) => Ok((pat, Some(v))),
        None => Err(PatternError::InvalidPskSuffix),
    }
}

/// The roles that send each message slot of `pat`.
fn base_order(pat: HandshakePattern) -> (r: Vec<Role>)
    ensures
        r@ == spec_base_order(pat),
{
    let i = Role::Initiator;
    let r = Role::Responder;
    let out = match pat {
        HandshakePattern::N | HandshakePattern::K | HandshakePattern::X => vec![i],
        HandshakePattern::NN | HandshakePattern::NK | HandshakePattern::NX | HandshakePattern::XN
        | HandshakePattern::KN | HandshakePattern::IN => vec![i, r, i],
        _ => vec![i, r, i, r],
    };
    assert(out@ =~= spec_base_order(pat));
    out
}

/// The Diffie-Hellman operations of each message of `pat`.
fn message_tokens(pat: HandshakePattern) -> (r: Vec<Vec<Steps>>)
    ensures
        r@.len() == message_dhs(pat).len(),
        forall|i: int| 0 <= i < r@.len() ==> r@[i]@ == message_dhs(pat)[i],
{
    let out = match pat {
            HandshakePattern::N => vec![vec![Steps::Es]],
            HandshakePattern::K => vec![vec![Steps::Es, Steps::Ss]],
            HandshakePattern::X => vec![vec![Steps::Es, Steps::Ss]],
            HandshakePattern::NN => vec![vec![], vec![Steps::Ee]],
            HandshakePattern::NK => vec![vec![Steps::Es], vec![Steps::Ee]],
            HandshakePattern::NX => vec![vec![], vec![Steps::Ee, Steps::Es]],
            HandshakePattern::XN => vec![vec![], vec![Steps::Ee], vec![Steps::Se]],
            HandshakePattern::XK => vec![vec![Steps::Es], vec![Steps::Ee], vec![Steps::Se]],
            HandshakePattern::XX => vec![vec![], vec![Steps::Ee, Steps::Es], vec![Steps::Se]],
            HandshakePattern::XXfallback => vec![vec![Steps::Ee, Steps::Es], vec![Steps::Ee, Steps::Se], vec![Steps::Se]],
            HandshakePattern::KN => vec![vec![Steps::Ss], vec![Steps::Ee, Steps::Se]],
            HandshakePattern::KK => vec![vec![Steps::Es, Steps::Ss], vec![Steps::Ee, Steps::Se]],
            HandshakePattern::KX => vec![vec![Steps::Ss], vec![Steps::Ee, Steps::Se, Steps::Es]],
            HandshakePattern::IN => vec![vec![], vec![Steps::Ee, Steps::Se]],
            HandshakePattern::IK => vec![vec![Steps::Es, Steps::Ss], vec![Steps::Ee, Steps::Se]],
            HandshakePattern::IX => vec![vec![], vec![Steps::Ee, Steps::Se, Steps::Es]],
    };
    assert(forall|i: int| 0 <= i < out@.len() ==> out@[i]@ =~= message_dhs(pat)[i]);
    out
}

/// Every message of `pat` with its Diffie-Hellman operations and its sender,
/// with a pre-shared-key event before message `n` when `psk` is `Some(n)`,
/// or after the last message, from its sender, when `n` is the number of
/// messages.
pub fn build_flow(pat: HandshakePattern, psk: Option<usize>) -> (r: Vec<Step>)
    ensures
        r@.len() == spec_flow(pat, psk).len(),
        forall|i: int| 0 <= i < r@.len() ==> r@[i]@ == spec_flow(pat, psk)[i],
{
    let tokens = message_tokens(pat);
    let base = base_order(pat);
    let mut flow: Vec<Step> = Vec::new();
    let mut i: usize = 0;
    assert(spec_base_order(pat).len() >= message_dhs(pat).len());
    while i < tokens.len()
        invariant
            i <= tokens@.len(),
            tokens@.len() == message_dhs(pat).len(),
            forall|j: int| 0 <= j < tokens@.len() ==> tokens@[j]@ == message_dhs(pat)[j],
            base@ == spec_base_order(pat),
            base@.len() >= tokens@.len(),
            flow@.len() == flow_upto(pat, psk, i as int).len(),
            forall|j: int| 0 <= j < flow@.len() ==> flow@[j]@ == flow_upto(pat, psk, i as int)[j],
        decreases tokens@.len() - i,
    {
        let ghost before = flow@;
        let sender = base[i];
        let is_event = match psk {
            Some(n) => n == i,
            None => false,
        };
        if is_event {
            flow.push(Step { from: sender, psk: psk, dhs: Vec::new() });
        }
        let dhs = copy_steps(&tokens[i]);
        flow.push(Step { from: sender, psk: None, dhs });
        proof {
            let up = flow_upto(pat, psk, i as int);
            let blk = message_block(pat, psk, i as int);
            assert(flow_upto(pat, psk, i + 1) == up + blk);
            assert forall|j: int| 0 <= j < flow@.len() implies flow@[j]@ == (up + blk)[j] by {
                if j < before.len() {
                    assert(flow@[j] == before[j]);
                } else {
                    assert(flow@[j]@.dhs =~= (up + blk)[j].dhs);
                }
            }
        }
        i = i + 1;
    }
    let ghost body = flow@;
    let last_slot = match psk {
        Some(n) => n == tokens.len(),
        None => false,
    };
    if last_slot {
        let last_sender = base[tokens.len() - 1];
        flow.push(Step { from: last_sender, psk: psk, dhs: Vec::new() });
        proof {
            let sf = spec_flow(pat, psk);
            assert forall|j: int| 0 <= j < flow@.len() implies flow@[j]@ == sf[j] by {
                if j < body.len() {
                    assert(flow@[j] == body[j]);
                } else {
                    assert(flow@[j]@.dhs =~= sf[j].dhs);
                }
            }
        }
    } else {
        proof {
            let sf = spec_flow(pat, psk);
            assert(sf =~= flow_upto(pat, psk, message_dhs(pat).len() as int));
        }
    }
    flow
}

/// A copy of `s` in a new vector.
fn copy_steps(s: &Vec<Steps>) -> (r: Vec<Steps>)
    ensures
        r@ == s@,
{
    let mut r: Vec<Steps> = Vec::new();
    let mut i: usize = 0;
    while i < s.len()
        invariant
            i <= s@.len(),
            r@ == s@.take(i as int),
        decreases s@.len() - i,
    {
        r.push(s[i]);
        assert(s@.take(i + 1) =~= s@.take(i as int).push(s@[i as int]));
        i = i + 1;
    }
    assert(s@.take(s@.len() as int) =~= s@);
    r
}

pub open spec fn steps_name(s: Steps) -> Seq<u8> {
    match s {
        Steps::Ee => seq![b('e'), b('e')],
        Steps::Es => seq![b('e'), b('s')],
        Steps::Se => seq![b('s'), b('e')],
        Steps::Ss => seq![b('s'), b('s')],
    }
}

/// The operation named by `name` (`ee`, `es`, `se` or `ss`), if any.
pub open spec fn steps_of(name: Seq<u8>) -> Option<Steps> {
    if name == steps_name(Steps::Ee) {
        Some(Steps::Ee)
    } else if name == steps_name(Steps::Es) {
        Some(Steps::Es)
    } else if name == steps_name(Steps::Se) {
        Some(Steps::Se)
    } else if name == steps_name(Steps::Ss) {
        Some(Steps::Ss)
    } else {
        None
    }
}

impl Steps {
    /// The operation named exactly `s`.
    pub fn parse(s: &str) -> (r: Result<Steps, PatternError>)
        ensures
            match steps_of(s.spec_bytes()) {
                Some(d) => r == Ok::<Steps, PatternError>(d),
                None => r == Err::<Steps, PatternError>(PatternError::InvalidPattern),
            },
    {
        let b = s.as_bytes();
        if b.len() != 2 {
            return Err(PatternError::InvalidPattern);
        }
        let x = b[0];
        let y = b[1];
        assert(b@ =~= seq![x, y]);
        let e = 'e' as u8;
        let z = 's' as u8;
        if x == e && y == e {
            Ok(Steps::Ee)
        } else if x == e && y == z {
            Ok(Steps::Es)
        } else if x == z && y == e {
            Ok(Steps::Se)
        } else if x == z && y == z {
            Ok(Steps::Ss)
        } else {
            Err(PatternError::InvalidPattern)
        }
    }
}

impl std::str::FromStr for Steps {
    type Err = PatternError;

    fn from_str(s: &str) -> Result<Self, Self::Err> {
        Steps::parse(s)
    }
}

} // verus!
