use vstd::prelude::*;
use vstd::string::StrSliceExecFns;
use vstd::string::StringExecFns;
use crate::error::Error;
use crate::metrics::Metrics;
use crate::text::all_digit_chars;
use crate::text::decimal_digits;
use crate::text::digit_value;
use crate::text::digits_value;
use crate::text::find_char_from;
use crate::text::first_index_of;
use crate::text::is_digit_char;
use crate::text::lemma_digits_value_prefix_le;
use crate::text::lemma_first_index_of_found;
use crate::text::lemma_first_index_of_none;
use crate::text::u16_to_decimal;

verus! {

/// Connection parameters for the Factorio collector: where the game server's
/// remote console listens and the secret it expects.
pub struct FactorioOpts {
    /// Port used to reach the game server's remote console on localhost.
    pub rcon_port: u16,
    /// Secret for the remote console's authentication handshake.
    pub rcon_password: String,
}

/// The fixed console command whose reply carries the player count.
pub fn players_online_command() -> (r: &'static str)
    ensures
        r@ == "/players online count"@,
{
    "/players online count"
}

/// The address of the game server's console on the local host, for `port`.
pub open spec fn rcon_address(port: u16) -> Seq<char> {
    "localhost:"@ + decimal_digits(port as nat)
}

/// Renders the console address for `port`.
pub fn rcon_url(port: u16) -> (r: String)
    ensures
        r@ == rcon_address(port),
{
    let mut out = String::from_str("localhost:");
    let digits = u16_to_decimal(port);
    out.append(digits.as_str());
    out
}

/// The text standing between the first `(` of a reply and the first `)`
/// after it, when both exist.
pub open spec fn extracted_group(reply: Seq<char>) -> Option<Seq<char>> {
    match first_index_of(reply, '(') {
        None => None,
        Some(i) => {
            let after = reply.subrange(i + 1, reply.len() as int);
            match first_index_of(after, ')') {
                None => None,
                Some(j) => Some(after.subrange(0, j)),
            }
        },
    }
}

/// The player count a console reply carries: the first parenthesized group
/// read as an unsigned 16-bit decimal. `None` when the reply has no such
/// group, when the group is empty or holds a non-digit, or when the value
/// does not fit.
pub open spec fn parsed_player_count(reply: Seq<char>) -> Option<u16> {
    match extracted_group(reply) {
        None => None,
        Some(d) => if d.len() > 0 && all_digit_chars(d) && digits_value(d) <= u16::MAX {
            Some(digits_value(d) as u16)
        } else {
            None
        },
    }
}

/// The diagnostic text for a reply that yields no count; it carries the raw
/// reply verbatim.
pub open spec fn parse_error_text(reply: Seq<char>) -> Seq<char> {
    "Failed to parse any Factorio player count from response: "@ + reply
}

/// Builds the failed-parse error for `reply`.
fn parse_failure(reply: &str) -> (e: Error)
    ensures
        e matches Error::MetricsCollectError(msg) && msg@ == parse_error_text(reply@),
{
    let mut msg = String::from_str("Failed to parse any Factorio player count from response: ");
    msg.append(reply);
    Error::MetricsCollectError(msg)
}

/// Law: a reply carrying a well-formed parenthesized unsigned 16-bit integer
/// parses to exactly that integer, and the first parenthesized group is the
/// one read — whatever follows it, including further groups, is ignored.
pub proof fn lemma_parse_reads_first_group(prefix: Seq<char>, digits: Seq<char>, suffix: Seq<char>)
    requires
        forall|j: int| 0 <= j < prefix.len() ==> prefix[j] != '(',
        digits.len() > 0,
        all_digit_chars(digits),
        digits_value(digits) <= u16::MAX,
    ensures
        parsed_player_count(prefix + seq!['('] + digits + seq![')'] + suffix) == Some(
            digits_value(digits) as u16,
        ),
{
    let s = prefix + seq!['('] + digits + seq![')'] + suffix;
    let p = prefix.len() as int;
    assert(s[p] == '(');
    assert(forall|j: int| 0 <= j < p ==> s[j] == prefix[j] && s[j] != '(');
    lemma_first_index_of_found(s, '(', p);
    let after = s.subrange(p + 1, s.len() as int);
    assert(after =~= digits + seq![')'] + suffix);
    let q = digits.len() as int;
    assert(after[q] == ')');
    assert(forall|j: int| 0 <= j < q ==> after[j] == digits[j] && is_digit_char(after[j]));
    assert((')' as u32) == 41 && ('0' as u32) == 48);
    assert(forall|j: int| 0 <= j < q ==> after[j] != ')');
    lemma_first_index_of_found(after, ')', q);
    assert(after.subrange(0, q) =~= digits);
    assert(extracted_group(s) == Some(digits));
}

/// Law: a reply with no `(` at all parses to no count.
pub proof fn lemma_parse_fails_without_open(reply: Seq<char>)
    requires
        forall|j: int| 0 <= j < reply.len() ==> reply[j] != '(',
    ensures
        parsed_player_count(reply) is None,
{
    lemma_first_index_of_none(reply, '(');
}

/// Law: non-numeric content between the first `(` and the first `)` after it
/// parses to no count — it is a failure, never a zero.
pub proof fn lemma_parse_fails_on_non_numeric(reply: Seq<char>, k: int)
    requires
        extracted_group(reply) matches Some(d) && 0 <= k < d.len() && !is_digit_char(d[k]),
    ensures
        parsed_player_count(reply) is None,
{
    let d = extracted_group(reply)->Some_0;
    assert(!all_digit_chars(d));
}

/// Reads the player count out of a raw console reply.
///
/// Succeeds exactly when the reply carries a well-formed parenthesized
/// unsigned 16-bit integer, and then returns a snapshot holding exactly that
/// value; otherwise fails with a `MetricsCollectError` whose message includes
/// the raw reply, never a guessed count.
pub fn parse_player_count(reply: &str) -> (r: Result<Metrics, Error>)
    ensures
        match r {
            Ok(m) => parsed_player_count(reply@) == Some(m.players_online_count),
            Err(e) => parsed_player_count(reply@) is None && (e matches Error::MetricsCollectError(
                msg,
            ) && msg@ == parse_error_text(reply@)),
        },
{
    let len = reply.unicode_len();
    let open_idx = match find_char_from(reply, 0, '(') {
        Some(i) => i,
        None => {
            proof {
                lemma_first_index_of_none(reply@, '(');
            }
            return Err(parse_failure(reply));
        },
    };
    proof {
        lemma_first_index_of_found(reply@, '(', open_idx as int);
    }
    let ghost after = reply@.subrange(open_idx as int + 1, reply@.len() as int);
    let close_idx = match find_char_from(reply, open_idx + 1, ')') {
        Some(j) => j,
        None => {
            proof {
                assert(forall|j: int| 0 <= j < after.len() ==> after[j] != ')') by {
                    assert(forall|j: int|
                        0 <= j < after.len() ==> after[j] == reply@[j + open_idx + 1]);
                }
                lemma_first_index_of_none(after, ')');
            }
            return Err(parse_failure(reply));
        },
    };
    proof {
        assert(after[close_idx - open_idx - 1] == ')');
        assert(forall|j: int|
            0 <= j < close_idx - open_idx - 1 ==> after[j] == reply@[j + open_idx + 1] && after[j]
                != ')');
        lemma_first_index_of_found(after, ')', close_idx as int - open_idx as int - 1);
    }
    let ghost d = reply@.subrange(open_idx as int + 1, close_idx as int);
    proof {
        assert(after.subrange(0, close_idx - open_idx - 1) =~= d);
        assert(extracted_group(reply@) == Some(d));
    }
    if close_idx == open_idx + 1 {
        proof {
            assert(d.len() == 0);
        }
        return Err(parse_failure(reply));
    }
    let mut acc: u32 = 0;
    let mut k = open_idx + 1;
    while k < close_idx
        invariant
            open_idx + 1 <= k <= close_idx < len,
            len == reply@.len(),
            d == reply@.subrange(open_idx as int + 1, close_idx as int),
            extracted_group(reply@) == Some(d),
            all_digit_chars(d.subrange(0, k - open_idx - 1)),
            acc == digits_value(d.subrange(0, k - open_idx - 1)),
            acc <= u16::MAX,
        decreases close_idx - k,
    {
        let ch = reply.get_char(k);
        let v = ch as u32;
        proof {
            assert(d[k - open_idx - 1] == ch);
        }
        if v < 48 || v > 57 {
            proof {
                assert(('0' as u32) == 48 && ('9' as u32) == 57);
                assert(!is_digit_char(d[k - open_idx - 1]));
            }
            return Err(parse_failure(reply));
        }
        proof {
            assert(('0' as u32) == 48 && ('9' as u32) == 57);
            assert(is_digit_char(ch));
            assert(digit_value(ch) == (v - 48) as nat);
        }
        let next: u32 = acc * 10 + (v - 48);
        let ghost grown = d.subrange(0, k - open_idx - 1 + 1);
        proof {
            assert(grown.drop_last() =~= d.subrange(0, k - open_idx - 1));
            assert(grown.last() == ch);
            assert(digits_value(grown) == next);
        }
        if next > 65535 {
            proof {
                lemma_digits_value_prefix_le(d, k - open_idx - 1 + 1);
                assert(digits_value(d) > u16::MAX);
            }
            return Err(parse_failure(reply));
        }
        acc = next;
        k = k + 1;
    }
    proof {
        assert(d.subrange(0, d.len() as int) =~= d);
        assert(acc == digits_value(d));
        assert(d.len() > 0 && all_digit_chars(d) && digits_value(d) <= u16::MAX);
        assert(parsed_player_count(reply@) == Some(acc as u16));
    }
    Ok(Metrics { players_online_count: acc as u16 })
}

} // verus!

