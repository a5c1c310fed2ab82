use vstd::prelude::*;

use crate::error::ProtocolError;

verus! {

/// Wire protocol revision negotiated during registration.
#[derive(Debug, Clone, Copy, PartialEq, Eq, Structural, PartialOrd, Ord)]
pub struct ProtocolVersion {
    pub major: u16,
    pub minor: u16,
}

/// The revision this build speaks: 1.0.
pub open spec fn current_version() -> ProtocolVersion {
    ProtocolVersion { major: 1, minor: 0 }
}

/// Lexicographic order on versions: major first, then minor.
pub open spec fn version_le(a: ProtocolVersion, b: ProtocolVersion) -> bool {
    a.major < b.major || (a.major == b.major && a.minor <= b.minor)
}

/// Two versions are compatible when their major revisions match and the
/// remote minor is not newer than the local one.
pub open spec fn compatible(local: ProtocolVersion, remote: ProtocolVersion) -> bool {
    local.major == remote.major && remote.minor <= local.minor
}

pub open spec fn version_max(a: ProtocolVersion, b: ProtocolVersion) -> ProtocolVersion {
    if a.major > b.major || (a.major == b.major && a.minor >= b.minor) {
        a
    } else {
        b
    }
}

pub open spec fn version_min(a: ProtocolVersion, b: ProtocolVersion) -> ProtocolVersion {
    if a.major < b.major || (a.major == b.major && a.minor <= b.minor) {
        a
    } else {
        b
    }
}

/// The character of a decimal digit.
pub open spec fn digit_char(d: nat) -> char {
    if d == 0 { '0' }
    else if d == 1 { '1' }
    else if d == 2 { '2' }
    else if d == 3 { '3' }
    else if d == 4 { '4' }
    else if d == 5 { '5' }
    else if d == 6 { '6' }
    else if d == 7 { '7' }
    else if d == 8 { '8' }
    else { '9' }
}

/// Decimal rendering of a natural number, without leading zeros.
pub open spec fn decimal(n: nat) -> Seq<char>
    decreases n,
{
    if n < 10 {
        seq![digit_char(n)]
    } else {
        decimal(n / 10).push(digit_char(n % 10))
    }
}

/// The text of a version: `major.minor`.
pub open spec fn version_text(v: ProtocolVersion) -> Seq<char> {
    decimal(v.major as nat) + seq!['.'] + decimal(v.minor as nat)
}

fn digit_str(d: u16) -> (s: &'static str)
    requires
        d < 10,
    ensures
        s@ == seq![digit_char(d as nat)],
{
    proof {
        reveal_strlit("0");
        reveal_strlit("1");
        reveal_strlit("2");
        reveal_strlit("3");
        reveal_strlit("4");
        reveal_strlit("5");
        reveal_strlit("6");
        reveal_strlit("7");
        reveal_strlit("8");
        reveal_strlit("9");
    }
    if d == 0 { "0" }
    else if d == 1 { "1" }
    else if d == 2 { "2" }
    else if d == 3 { "3" }
    else if d == 4 { "4" }
    else if d == 5 { "5" }
    else if d == 6 { "6" }
    else if d == 7 { "7" }
    else if d == 8 { "8" }
    else { "9" }
}

fn append_decimal(s: &mut String, n: u16)
    ensures
        final(s)@ == old(s)@ + decimal(n as nat),
    decreases n,
{
    if n >= 10 {
        append_decimal(s, n / 10);
    }
    s.append(digit_str(n % 10));
    proof {
        if n >= 10 {
            assert(old(s)@ + decimal(n as nat) =~= old(s)@ + decimal((n / 10) as nat) + seq![digit_char((n % 10) as nat)]);
        } else {
            assert(decimal(n as nat) == seq![digit_char(n as nat)]);
        }
    }
}

impl ProtocolVersion {
    /// The revision this build speaks.
    pub fn current() -> (v: Self)
        ensures
            v == current_version(),
    {
        ProtocolVersion { major: 1, minor: 0 }
    }

    pub fn new(major: u16, minor: u16) -> (v: Self)
        ensures
            v.major == major,
            v.minor == minor,
    {
        ProtocolVersion { major, minor }
    }

    /// Two versions are compatible when their major revisions match and the
    /// remote minor is not newer than ours.
    pub fn is_compatible_with(self, remote: ProtocolVersion) -> (b: bool)
        ensures
            b == compatible(self, remote),
    {
        self.major == remote.major && remote.minor <= self.minor
    }

    /// The negotiated version when `remote` is compatible, else an error that
    /// names both versions.
    pub fn ensure_compatible(self, remote: ProtocolVersion) -> (r: Result<ProtocolVersion, ProtocolError>)
        ensures
            compatible(self, remote) ==> r == Ok::<ProtocolVersion, ProtocolError>(version_min(self, remote)),
            !compatible(self, remote) ==> (r matches Err(ProtocolError::BadVersion { local, remote: rem })
                && local@ == version_text(self) && rem@ == version_text(remote)),
    {
        if self.is_compatible_with(remote) {
            Ok(self.min(remote))
        } else {
            Err(ProtocolError::BadVersion { local: self.to_string(), remote: remote.to_string() })
        }
    }

    pub fn max(self, other: ProtocolVersion) -> (v: Self)
        ensures
            v == version_max(self, other),
    {
        if self.major > other.major || (self.major == other.major && self.minor >= other.minor) {
            self
        } else {
            other
        }
    }

    pub fn min(self, other: ProtocolVersion) -> (v: Self)
        ensures
            v == version_min(self, other),
    {
        if self.major < other.major || (self.major == other.major && self.minor <= other.minor) {
            self
        } else {
            other
        }
    }

    /// `major.minor`, as the version is displayed.
    pub fn to_string(&self) -> (s: String)
        ensures
            s@ == version_text(*self),
    {
        let mut s = String::new();
        append_decimal(&mut s, self.major);
        proof {
            reveal_strlit(".");
        }
        s.append(".");
        append_decimal(&mut s, self.minor);
        s
    }
}

impl Default for ProtocolVersion {
    fn default() -> (v: Self)
        ensures
            v == current_version(),
    {
        ProtocolVersion::current()
    }
}

/// Implemented by things whose serialized form carries a protocol revision.
pub trait Versioned {
    fn version(&self) -> ProtocolVersion;
}

/// Codes attached to an error reply.
#[derive(Debug, Clone, Copy, PartialEq, Eq, Structural)]
pub enum ErrorCode {
    Protocol,
    UnknownMessage,
    TaskNotFound,
    TaskRejected,
    Unauthorised,
    Internal,
}

/// The code that reports a protocol error.
pub open spec fn code_of(error: ProtocolError) -> ErrorCode {
    match error {
        ProtocolError::BadVersion { .. } => ErrorCode::Protocol,
        ProtocolError::UnknownMessage => ErrorCode::UnknownMessage,
        ProtocolError::Decode(_) => ErrorCode::Protocol,
        ProtocolError::Expired => ErrorCode::TaskRejected,
        ProtocolError::Unsupported => ErrorCode::Protocol,
    }
}

impl<'a> From<&'a ProtocolError> for ErrorCode {
    fn from(error: &'a ProtocolError) -> (c: Self) {
        match error {
            ProtocolError::BadVersion { .. } => ErrorCode::Protocol,
            ProtocolError::UnknownMessage => ErrorCode::UnknownMessage,
            ProtocolError::Decode(_) => ErrorCode::Protocol,
            ProtocolError::Expired => ErrorCode::TaskRejected,
            ProtocolError::Unsupported => ErrorCode::Protocol,
        }
    }
}

impl<'a> vstd::std_specs::convert::FromSpecImpl<&'a ProtocolError> for ErrorCode {
    open spec fn obeys_from_spec() -> bool {
        true
    }

    open spec fn from_spec(error: &'a ProtocolError) -> ErrorCode {
        code_of(*error)
    }
}

/// `min` and `max` each pick one of their two arguments, do not depend on
/// the order of the arguments, and bound both arguments from below and above
/// in the version order.
pub proof fn law_min_max(a: ProtocolVersion, b: ProtocolVersion)
    ensures
        version_min(a, b) == a || version_min(a, b) == b,
        version_max(a, b) == a || version_max(a, b) == b,
        version_min(a, b) == version_min(b, a),
        version_max(a, b) == version_max(b, a),
        version_le(version_min(a, b), a) && version_le(version_min(a, b), b),
        version_le(a, version_max(a, b)) && version_le(b, version_max(a, b)),
{
}

/// Compatibility is reflexive and transitive.
pub proof fn law_compatibility_preorder(a: ProtocolVersion, b: ProtocolVersion, c: ProtocolVersion)
    ensures
        compatible(a, a),
        compatible(a, b) && compatible(b, c) ==> compatible(a, c),
{
}

/// When a remote version is accepted, the negotiated version is the remote
/// one, and it is compatible with the local version.
pub proof fn law_negotiated_version(local: ProtocolVersion, remote: ProtocolVersion)
    requires
        compatible(local, remote),
    ensures
        version_min(local, remote) == remote,
        compatible(local, version_min(local, remote)),
{
}


/// A peer is accepted exactly when it speaks our major revision with a minor
/// revision no newer than ours: a peer on another major revision, older or
/// newer, is never accepted, and `ensure_compatible` then refuses it.
pub proof fn law_compatibility_is_same_major(local: ProtocolVersion, remote: ProtocolVersion)
    ensures
        compatible(local, remote) ==> local.major == remote.major,
        compatible(local, remote) ==> remote.minor <= local.minor,
        local.major == remote.major && remote.minor <= local.minor ==> compatible(local, remote),
        local.major != remote.major ==> !compatible(local, remote),
{
}


/// The number a string of decimal digits reads as.
pub open spec fn decimal_value(s: Seq<char>) -> int
    decreases s.len(),
{
    if s.len() == 0 {
        0
    } else {
        decimal_value(s.drop_last()) * 10 + (s.last() as int - '0' as int)
    }
}

proof fn lemma_digit(d: nat)
    requires
        d < 10,
    ensures
        digit_char(d) as int - '0' as int == d,
        '0' <= digit_char(d) <= '9',
{
    assert('1' as int == '0' as int + 1 && '2' as int == '0' as int + 2 && '3' as int == '0' as int + 3);
    assert('4' as int == '0' as int + 4 && '5' as int == '0' as int + 5 && '6' as int == '0' as int + 6);
    assert('7' as int == '0' as int + 7 && '8' as int == '0' as int + 8 && '9' as int == '0' as int + 9);
}

/// The decimal text of a number is a non-empty string of the digits `0` to
/// `9`, with no leading zero unless it is `0` itself, and it reads back as
/// the number.
pub proof fn law_decimal(n: nat)
    ensures
        decimal(n).len() >= 1,
        forall|i: int| 0 <= i < decimal(n).len() ==> '0' <= #[trigger] decimal(n)[i] <= '9',
        decimal(n)[0] == '0' ==> n == 0,
        decimal_value(decimal(n)) == n,
    decreases n,
{
    lemma_digit(n % 10);
    if n < 10 {
        lemma_digit(n);
        assert(decimal(n).drop_last() =~= Seq::<char>::empty());
        assert(decimal_value(decimal(n)) == decimal_value(Seq::<char>::empty()) * 10 + (digit_char(n) as int
            - '0' as int));
    }
    if n >= 10 {
        law_decimal(n / 10);
        let s = decimal(n);
        assert(s.drop_last() =~= decimal(n / 10));
        assert(s[0] == decimal(n / 10)[0]);
        assert(s.last() == digit_char(n % 10));
        assert(decimal_value(s) == decimal_value(decimal(n / 10)) * 10 + (s.last() as int - '0' as int));
        assert(n == (n / 10) * 10 + n % 10);
    }
}

/// Different versions have different texts, so an error that names both
/// versions names them unambiguously.
pub proof fn law_version_text_distinct(a: ProtocolVersion, b: ProtocolVersion)
    ensures
        version_text(a) == version_text(b) ==> a == b,
{
    if version_text(a) == version_text(b) {
        law_decimal(a.major as nat);
        law_decimal(a.minor as nat);
        law_decimal(b.major as nat);
        law_decimal(b.minor as nat);
        let ta = version_text(a);
        let ka = decimal(a.major as nat).len();
        let kb = decimal(b.major as nat).len();
        assert(ta[ka as int] == '.');
        assert(version_text(b)[kb as int] == '.');
        if ka < kb {
            assert(ta[ka as int] == decimal(b.major as nat)[ka as int]);
        } else if kb < ka {
            assert(ta[kb as int] == decimal(a.major as nat)[kb as int]);
        }
        assert(ka == kb);
        assert(decimal(a.major as nat) =~= ta.take(ka as int));
        assert(decimal(b.major as nat) =~= ta.take(ka as int));
        assert(decimal(a.minor as nat) =~= ta.skip(ka as int + 1));
        assert(decimal(b.minor as nat) =~= ta.skip(ka as int + 1));
    }
}


/// The code that reports each protocol error: version, decoding and
/// unsupported-operation errors are protocol errors, an unknown message is
/// reported as such, and an expired message as a rejected task.
pub proof fn law_error_codes(e: ProtocolError)
    ensures
        e is BadVersion ==> code_of(e) == ErrorCode::Protocol,
        e is Decode ==> code_of(e) == ErrorCode::Protocol,
        e is Unsupported ==> code_of(e) == ErrorCode::Protocol,
        e is UnknownMessage ==> code_of(e) == ErrorCode::UnknownMessage,
        e is Expired ==> code_of(e) == ErrorCode::TaskRejected,
{
}

} // verus!
