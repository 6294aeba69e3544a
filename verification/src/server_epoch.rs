//! The token of one server incarnation.
//!
//! What describes a session is also what a saved session holds, so none of it tells a live
//! session from a replayed one. The token does: it is drawn from the entropy of the operating
//! system once in each server process and is written nowhere. Whoever sees another token than
//! the one noted before knows that the server is another one.
//!
//! Nothing stands in for entropy. Where the system gives none there is no token, since one that
//! can be guessed is worse than none.

use vstd::prelude::*;
use vstd::string::*;

verus! {

/// The number of random bytes in a token.
pub const EPOCH_BYTES: usize = 16;

/// The error of `getrandom`, which is passed on as it comes.
#[verifier::external_type_specification]
#[verifier::external_body]
pub struct ExGetrandomError(getrandom::Error);

/// `getrandom::fill` overwrites the bytes of `dest`, or some of them where it fails. Their number
/// stays, and no bytes at all can always be had. Which bytes come, and whether they do, rests
/// with the operating system.
pub assume_specification[ getrandom::fill ](dest: &mut [u8]) -> (drawn: Result<
    (),
    getrandom::Error,
>)
    ensures
        final(dest)@.len() == old(dest)@.len(),
        old(dest)@.len() == 0 ==> drawn is Ok,
;

/// The operating system has no entropy to give.
#[derive(Debug)]
pub struct EntropyUnavailable(pub getrandom::Error);

/// The lowercase hexadecimal digit of a value below sixteen.
pub open spec fn hex_digit(n: int) -> char {
    if n < 10 {
        ('0' as int + n) as char
    } else {
        ('a' as int + n - 10) as char
    }
}

/// The bytes as pairs of hexadecimal digits.
pub open spec fn hex(bytes: Seq<u8>) -> Seq<char> {
    Seq::new(
        2 * bytes.len(),
        |i: int|
            if i % 2 == 0 {
                hex_digit(bytes[i / 2] as int / 16)
            } else {
                hex_digit(bytes[i / 2] as int % 16)
            },
    )
}

/// A lowercase hexadecimal digit.
pub open spec fn is_hex_digit(c: char) -> bool {
    '0' <= c <= '9' || 'a' <= c <= 'f'
}

/// The form of a token: two hexadecimal digits for each random byte.
pub open spec fn is_token(s: Seq<char>) -> bool {
    s.len() == 2 * EPOCH_BYTES && forall|i: int| 0 <= i < s.len() ==> is_hex_digit(#[trigger] s[i])
}

/// As many zero bytes as a token has bytes.
pub open spec fn blank() -> Seq<u8> {
    Seq::new(EPOCH_BYTES as nat, |i: int| 0u8)
}

/// What a refusal says, given what the cause is called.
pub open spec fn refusal(cause: Seq<char>) -> Seq<char> {
    "cannot mint the server incarnation token: OS entropy unavailable ("@ + cause + ")"@
}

/// What a refusal says, given what the cause is called.
pub fn refusal_message(cause: &str) -> (message: String)
    ensures
        message@ == refusal(cause@),
{
    let mut message: String =
        "cannot mint the server incarnation token: OS entropy unavailable (".to_string();
    message.append(cause);
    message.append(")");
    message
}

impl EntropyUnavailable {
    /// What could not be done, and why.
    pub fn message(&self) -> (message: String)
        ensures
            exists|cause: String| #[trigger]
                to_string_from_display_ensures::<getrandom::Error>(&self.0, cause) && message@
                    == refusal(cause@),
    {
        let cause: String = self.0.to_string();
        refusal_message(cause.as_str())
    }
}

/// The place of a token. It is empty until a token has been minted, and then keeps that token.
#[derive(Debug)]
pub struct EpochCell {
    token: Option<String>,
}

impl View for EpochCell {
    type V = Option<Seq<char>>;

    closed spec fn view(&self) -> Option<Seq<char>> {
        match self.token {
            Some(token) => Some(token@),
            None => None,
        }
    }
}

impl EpochCell {
    /// A cell that is not empty holds a whole token.
    #[verifier::type_invariant]
    spec fn holds_a_token(&self) -> bool {
        self.token matches Some(token) ==> is_token(token@)
    }

    /// A cell without a token.
    pub fn new() -> (cell: EpochCell)
        ensures
            cell@ is None,
    {
        EpochCell { token: None }
    }
}

/// The lowercase hexadecimal digit of a value below sixteen.
fn hex_char(n: u8) -> (c: char)
    requires
        n < 16,
    ensures
        c == hex_digit(n as int),
{
    if n < 10 {
        ('0' as u8 + n) as char
    } else {
        ('a' as u8 + (n - 10)) as char
    }
}

/// The token of the drawn bytes.
pub fn token_of(bytes: &[u8; EPOCH_BYTES]) -> (token: String)
    ensures
        token@ == hex(bytes@),
{
    let mut token: String = String::new();
    let mut i: usize = 0;
    while i < EPOCH_BYTES
        invariant
            i <= EPOCH_BYTES,
            token@ == hex(bytes@).take(2 * i),
        decreases EPOCH_BYTES - i,
    {
        let b: u8 = bytes[i];
        token.push(hex_char(b / 16));
        token.push(hex_char(b % 16));
        i = i + 1;
    }
    token
}

/// The token, given what came of the attempt to draw its bytes.
pub fn mint_from(drawn: Result<[u8; EPOCH_BYTES], getrandom::Error>) -> (minted: Result<
    String,
    EntropyUnavailable,
>)
    ensures
        match drawn {
            Ok(bytes) => minted matches Ok(token) && token@ == hex(bytes@),
            Err(error) => minted == Err::<String, EntropyUnavailable>(EntropyUnavailable(error)),
        },
{
    match drawn {
        Ok(bytes) => Ok(token_of(&bytes)),
        Err(error) => Err(EntropyUnavailable(error)),
    }
}

/// Draws one token. The bytes come from `fill`, which is given as many zero bytes to overwrite as
/// the token is to have; if it fails there is no token.
pub fn mint_with<F: FnOnce(&mut [u8]) -> Result<(), getrandom::Error>>(fill: F) -> (minted: Result<
    String,
    EntropyUnavailable,
>)
    requires
        forall|dest: &mut [u8]| dest@ == blank() ==> #[trigger] call_requires(fill, (dest,)),
    ensures
        minted is Ok ==> exists|dest: &mut [u8], drawn: Result<(), getrandom::Error>| #[trigger]
            call_ensures(fill, (dest,), drawn) && dest@ == blank() && drawn is Ok
                && final(dest)@.len() == EPOCH_BYTES && minted->Ok_0@ == hex(final(dest)@),
        minted is Err ==> exists|dest: &mut [u8], drawn: Result<(), getrandom::Error>| #[trigger]
            call_ensures(fill, (dest,), drawn) && dest@ == blank() && drawn == Err::<
                (),
                getrandom::Error,
            >(minted->Err_0.0),
        minted is Ok ==> is_token(minted->Ok_0@),
{
    let mut bytes: [u8; EPOCH_BYTES] = [0u8; EPOCH_BYTES];
    assert(bytes@ == blank());
    let drawn = fill(&mut bytes);
    proof {
        tokens_are_hexadecimal(bytes@);
    }
    match drawn {
        Ok(()) => mint_from(Ok(bytes)),
        Err(error) => mint_from(Err(error)),
    }
}

/// Puts a token into the cell, unless it has one.
///
/// A cell that has a token is left as it is, and `fill` is not called: a token that is there
/// must neither change nor be reported as missing. If no token can be minted the cell stays empty.
pub fn init_into<F: FnOnce(&mut [u8]) -> Result<(), getrandom::Error>>(
    cell: &mut EpochCell,
    fill: F,
) -> (done: Result<(), EntropyUnavailable>)
    requires
        old(cell)@ is None ==> forall|dest: &mut [u8]|
            dest@ == blank() ==> #[trigger] call_requires(fill, (dest,)),
    ensures
        old(cell)@ is Some ==> done is Ok && final(cell)@ == old(cell)@,
        old(cell)@ is None && done is Ok ==> final(cell)@ is Some && is_token(final(cell)@->0)
            && exists|dest: &mut [u8], drawn: Result<(), getrandom::Error>| #[trigger]
            call_ensures(fill, (dest,), drawn) && dest@ == blank() && drawn is Ok
                && final(dest)@.len() == EPOCH_BYTES && final(cell)@->0 == hex(final(dest)@),
        old(cell)@ is None && done is Err ==> final(cell)@ is None && exists|
            dest: &mut [u8],
            drawn: Result<(), getrandom::Error>,
        | #[trigger]
            call_ensures(fill, (dest,), drawn) && dest@ == blank() && drawn == Err::<
                (),
                getrandom::Error,
            >(done->Err_0.0),
{
    if cell.token.is_some() {
        return Ok(());
    }
    match mint_with(fill) {
        Ok(token) => {
            cell.token = Some(token);
            Ok(())
        },
        Err(error) => Err(error),
    }
}

/// Puts the token of this process into the cell. To be called once, when the server starts and
/// before it answers anyone.
///
/// Drawing the token later, when it is first asked for, would leave a failure nowhere to go but
/// into an answer. Here it keeps the server from starting.
pub fn init(cell: &mut EpochCell) -> (done: Result<(), EntropyUnavailable>)
    ensures
        old(cell)@ is Some ==> done is Ok && final(cell)@ == old(cell)@,
        old(cell)@ is None && done is Ok ==> final(cell)@ is Some && is_token(final(cell)@->0)
            && exists|dest: &mut [u8], drawn: Result<(), getrandom::Error>| #[trigger]
            call_ensures(getrandom::fill, (dest,), drawn) && dest@ == blank() && drawn is Ok
                && final(dest)@.len() == EPOCH_BYTES && final(cell)@->0 == hex(final(dest)@),
        old(cell)@ is None && done is Err ==> final(cell)@ is None && exists|
            dest: &mut [u8],
            drawn: Result<(), getrandom::Error>,
        | #[trigger]
            call_ensures(getrandom::fill, (dest,), drawn) && dest@ == blank() && drawn == Err::<
                (),
                getrandom::Error,
            >(done->Err_0.0),
{
    init_into(cell, getrandom::fill)
}

/// The token of this process, or `None` while it has none. `None` is no token, and is never to be
/// given out as one.
pub fn server_epoch(cell: &EpochCell) -> (token: Option<&str>)
    ensures
        match token {
            Some(t) => cell@ == Some(t@) && is_token(t@),
            None => cell@ is None,
        },
{
    proof {
        use_type_invariant(cell);
    }
    match &cell.token {
        Some(token) => Some(token.as_str()),
        None => None,
    }
}

/// The token of any bytes consists of lowercase hexadecimal digits, two for each byte.
pub proof fn tokens_are_hexadecimal(bytes: Seq<u8>)
    ensures
        hex(bytes).len() == 2 * bytes.len(),
        forall|i: int| 0 <= i < hex(bytes).len() ==> is_hex_digit(#[trigger] hex(bytes)[i]),
        bytes.len() == EPOCH_BYTES ==> is_token(hex(bytes)),
{
}

/// Different bytes make different tokens: all the entropy that was drawn is in the token.
pub proof fn tokens_differ_as_their_bytes_do(a: Seq<u8>, b: Seq<u8>)
    requires
        a != b,
    ensures
        hex(a) != hex(b),
{
    if hex(a) == hex(b) {
        assert(hex(a).len() == 2 * a.len() && hex(b).len() == 2 * b.len());
        assert forall|i: int| 0 <= i < a.len() implies a[i] == b[i] by {
            assert(hex(a)[2 * i] == hex_digit(a[i] as int / 16));
            assert(hex(b)[2 * i] == hex_digit(b[i] as int / 16));
            assert(hex(a)[2 * i + 1] == hex_digit(a[i] as int % 16));
            assert(hex(b)[2 * i + 1] == hex_digit(b[i] as int % 16));
        }
        assert(a == b);
    }
}

/// A token is not empty.
pub proof fn tokens_are_not_empty(token: Seq<char>)
    requires
        is_token(token),
    ensures
        token.len() > 0,
{
}

/// Each pair of digits in a token gives its byte back: a digit or a letter from `a` to `f` for the
/// upper half, then one for the lower half.
pub proof fn tokens_give_their_bytes_back(bytes: Seq<u8>, at: int)
    requires
        0 <= at < bytes.len(),
    ensures
        hex(bytes).len() == 2 * bytes.len(),
        ({
            let (upper, lower) = (hex(bytes)[2 * at], hex(bytes)[2 * at + 1]);
            let high = if '0' <= upper <= '9' {
                upper as int - '0' as int
            } else {
                upper as int - 'a' as int + 10
            };
            let low = if '0' <= lower <= '9' {
                lower as int - '0' as int
            } else {
                lower as int - 'a' as int + 10
            };
            &&& '0' <= upper <= '9' || 'a' <= upper <= 'f'
            &&& '0' <= lower <= '9' || 'a' <= lower <= 'f'
            &&& bytes[at] == 16 * high + low
        }),
{
}

/// A token is thirty-two lowercase hexadecimal digits, and whatever is made of them has the form of
/// a token.
pub proof fn tokens_have_thirty_two_digits(token: Seq<char>)
    ensures
        is_token(token) <==> token.len() == 32 && forall|i: int|
            0 <= i < token.len() ==> ('0' <= #[trigger] token[i] <= '9' || 'a' <= token[i] <= 'f'),
{
    assert(is_token(token) ==> forall|i: int|
        0 <= i < token.len() ==> is_hex_digit(#[trigger] token[i]));
}

/// The bytes that are to be overwritten are sixteen, and all are zero.
pub proof fn blank_bytes_are_zero(at: int)
    requires
        0 <= at < 16,
    ensures
        blank().len() == 16,
        blank()[at] == 0,
{
}

/// A refusal names its cause in brackets at the end, behind words that are always the same.
pub proof fn refusals_name_their_cause(cause: Seq<char>)
    ensures
        refusal(cause)
            == "cannot mint the server incarnation token: OS entropy unavailable"@
            + (seq![' ', '('] + cause).push(')'),
{
    reveal_strlit("cannot mint the server incarnation token: OS entropy unavailable");
    reveal_strlit("cannot mint the server incarnation token: OS entropy unavailable (");
    reveal_strlit(")");
}

} // verus!
