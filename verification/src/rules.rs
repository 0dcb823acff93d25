//! Forwarding rules: `LOCAL_PORT:TARGET_HOST:TARGET_PORT`.
//!
//! A rule text splits on `:` into exactly three parts; the ports are
//! decimal numbers from 1 to 65535 (the number parser also accepts one
//! leading `+`), and the host must be non-empty. A rule set is valid only
//! when the local ports are pairwise distinct; that is checked once at
//! startup, before any listener binds.

use vstd::prelude::*;

use vstd::string::StrSliceExecFns;
use vstd::string::StringExecFns;

use crate::render::dec_digits;
use crate::render::u16_string;

verus! {

/// One validated forwarding rule: connections accepted on `local_port` are
/// relayed to `target_host:target_port`.
#[derive(Clone, Debug)]
pub struct ForwardingRule {
    pub local_port: u16,
    pub target_host: String,
    pub target_port: u16,
}

/// The index of the first `:`, or -1 when there is none.
pub open spec fn first_colon(s: Seq<char>) -> int
    decreases s.len(),
{
    if s.len() == 0 {
        -1
    } else if s[0] == ':' {
        0
    } else if first_colon(s.skip(1)) < 0 {
        -1
    } else {
        first_colon(s.skip(1)) + 1
    }
}

/// `first_colon` is what its name says: the least index holding `:`.
proof fn lemma_first_colon(s: Seq<char>)
    ensures
        first_colon(s) < 0 ==> forall|k: int| 0 <= k < s.len() ==> s[k] != ':',
        first_colon(s) >= 0 ==> first_colon(s) < s.len() && s[first_colon(s)] == ':' && forall|
            k: int,
        | 0 <= k < first_colon(s) ==> s[k] != ':',
    decreases s.len(),
{
    if s.len() == 0 {
    } else if s[0] == ':' {
    } else {
        lemma_first_colon(s.skip(1));
        if first_colon(s) < 0 {
            assert forall|k: int| 0 <= k < s.len() implies s[k] != ':' by {
                if k > 0 {
                    assert(s.skip(1)[k - 1] == s[k]);
                }
            }
        } else {
            let i = first_colon(s);
            assert(s.skip(1)[i - 1] == s[i]);
            assert forall|k: int| 0 <= k < i implies s[k] != ':' by {
                if k > 0 {
                    assert(s.skip(1)[k - 1] == s[k]);
                }
            }
        }
    }
}

/// A position that holds `:` with none before it is `first_colon`.
proof fn lemma_first_colon_is(s: Seq<char>, i: int)
    requires
        0 <= i < s.len(),
        s[i] == ':',
        forall|k: int| 0 <= k < i ==> s[k] != ':',
    ensures
        first_colon(s) == i,
{
    lemma_first_colon(s);
}

/// No `:` anywhere means `first_colon` is negative.
proof fn lemma_first_colon_none(s: Seq<char>)
    requires
        forall|k: int| 0 <= k < s.len() ==> s[k] != ':',
    ensures
        first_colon(s) < 0,
{
    lemma_first_colon(s);
}

/// Scan for the first `:` at or after `from`.
fn find_colon_from(s: &str, from: usize) -> (r: Option<usize>)
    requires
        from <= s@.len(),
    ensures
        match r {
            Some(i) => from <= i < s@.len() && s@[i as int] == ':' && forall|k: int|
                from <= k < i ==> s@[k] != ':',
            None => forall|k: int| from <= k < s@.len() ==> s@[k] != ':',
        },
{
    let n = s.unicode_len();
    let mut i: usize = from;
    while i < n
        invariant
            n == s@.len(),
            from <= i <= n,
            forall|k: int| from <= k < i ==> s@[k] != ':',
        decreases n - i,
    {
        if s.get_char(i) == ':' {
            return Some(i);
        }
        i += 1;
    }
    None
}

/// True for a decimal digit character.
pub open spec fn is_digit(c: char) -> bool {
    0x30 <= c as int && c as int <= 0x39
}

/// True when every character is a decimal digit.
pub open spec fn all_digits(s: Seq<char>) -> bool {
    forall|k: int| 0 <= k < s.len() ==> is_digit(#[trigger] s[k])
}

/// The number a digit string denotes (most significant first).
pub open spec fn digits_value(s: Seq<char>) -> int
    decreases s.len(),
{
    if s.len() == 0 {
        0
    } else {
        digits_value(s.drop_last()) * 10 + (s.last() as int - 0x30)
    }
}

/// The digit part of a port text: the number parser accepts one leading
/// `+` before the digits.
pub open spec fn port_digits(s: Seq<char>) -> Seq<char> {
    if s.len() > 0 && s[0] == '+' {
        s.skip(1)
    } else {
        s
    }
}

/// True when `s` reads as a port: digits (after an optional `+`) denoting
/// a value from 1 to 65535.
pub open spec fn is_port_text(s: Seq<char>) -> bool {
    let d = port_digits(s);
    d.len() > 0 && all_digits(d) && 1 <= digits_value(d) <= 65535
}

/// The port a valid port text denotes.
pub open spec fn port_of(s: Seq<char>) -> int {
    digits_value(port_digits(s))
}

/// A digit string denotes a nonnegative number.
proof fn lemma_digits_value_nonneg(s: Seq<char>)
    requires
        all_digits(s),
    ensures
        digits_value(s) >= 0,
    decreases s.len(),
{
    if s.len() > 0 {
        assert(forall|k: int| 0 <= k < s.drop_last().len() ==> s.drop_last()[k] == s[k]);
        lemma_digits_value_nonneg(s.drop_last());
    }
}

/// Dropping trailing digits never increases the value.
proof fn lemma_digits_prefix_le(s: Seq<char>, k: int)
    requires
        all_digits(s),
        0 <= k <= s.len(),
    ensures
        digits_value(s.take(k)) <= digits_value(s),
    decreases s.len(),
{
    if k == s.len() {
        assert(s.take(k) =~= s);
    } else {
        assert(forall|m: int| 0 <= m < s.drop_last().len() ==> s.drop_last()[m] == s[m]);
        lemma_digits_prefix_le(s.drop_last(), k);
        assert(s.take(k) =~= s.drop_last().take(k));
        lemma_digits_value_nonneg(s.drop_last());
    }
}

/// Parse a port number as the rule parser needs it: an optional `+`, then
/// digits denoting 1 to 65535.
fn parse_port(s: &str) -> (r: Option<u16>)
    ensures
        match r {
            Some(p) => is_port_text(s@) && p as int == port_of(s@) && 1 <= p <= 65535,
            None => !is_port_text(s@),
        },
{
    let n = s.unicode_len();
    let start: usize = if n > 0 && s.get_char(0) == '+' {
        1
    } else {
        0
    };
    let ghost d = port_digits(s@);
    proof {
        assert(d =~= s@.subrange(start as int, n as int));
    }
    if start >= n {
        return None;
    }
    let mut value: u32 = 0;
    let mut i: usize = start;
    while i < n
        invariant
            n == s@.len(),
            start <= i <= n,
            start < n,
            d == port_digits(s@),
            d =~= s@.subrange(start as int, n as int),
            all_digits(s@.subrange(start as int, i as int)),
            value as int == digits_value(s@.subrange(start as int, i as int)),
            value <= 65535,
        decreases n - i,
    {
        let c = s.get_char(i);
        if !(c >= '0' && c <= '9') {
            proof {
                assert(d[i - start] == s@[i as int]);
                assert(!is_digit(d[i - start]));
            }
            return None;
        }
        let cv = c as u32;
        value = value * 10 + (cv - 0x30);
        proof {
            let pre = s@.subrange(start as int, i as int);
            let post = s@.subrange(start as int, i + 1 as int);
            assert(post.drop_last() =~= pre);
            assert(post.last() == s@[i as int]);
        }
        i += 1;
        if value > 65535 {
            proof {
                if all_digits(d) {
                    lemma_digits_prefix_le(d, i - start);
                    assert(s@.subrange(start as int, i as int) =~= d.take(i - start));
                }
            }
            return None;
        }
    }
    proof {
        assert(s@.subrange(start as int, n as int) =~= d);
    }
    if value == 0 {
        return None;
    }
    Some(value as u16)
}

/// The three parts of a rule text, defined over the two colon splits.
pub open spec fn rule_shape_ok(s: Seq<char>) -> bool {
    let i = first_colon(s);
    i >= 0 && {
        let rest = s.skip(i + 1);
        let j = first_colon(rest);
        j >= 0 && first_colon(rest.skip(j + 1)) < 0
    }
}

/// The text before the first colon.
pub open spec fn rule_local_part(s: Seq<char>) -> Seq<char> {
    s.take(first_colon(s))
}

/// The text between the first and second colons.
pub open spec fn rule_host_part(s: Seq<char>) -> Seq<char> {
    let rest = s.skip(first_colon(s) + 1);
    rest.take(first_colon(rest))
}

/// The text after the second colon.
pub open spec fn rule_target_part(s: Seq<char>) -> Seq<char> {
    let rest = s.skip(first_colon(s) + 1);
    rest.skip(first_colon(rest) + 1)
}

/// The diagnostic the parser reports, by the first failing check.
pub open spec fn rule_error_text(s: Seq<char>) -> Seq<char> {
    if !rule_shape_ok(s) {
        "Invalid format '"@ + s + "'. Expected LOCAL_PORT:TARGET_HOST:TARGET_PORT"@
    } else if !is_port_text(rule_local_part(s)) {
        "Invalid local port '"@ + rule_local_part(s) + "'. Must be 1-65535"@
    } else if rule_host_part(s).len() == 0 {
        "Target host cannot be empty"@
    } else {
        "Invalid target port '"@ + rule_target_part(s) + "'. Must be 1-65535"@
    }
}

/// True when a rule text is accepted as a whole.
pub open spec fn rule_text_ok(s: Seq<char>) -> bool {
    rule_shape_ok(s) && is_port_text(rule_local_part(s)) && rule_host_part(s).len() > 0
        && is_port_text(rule_target_part(s))
}

/// Parse `LOCAL_PORT:TARGET_HOST:TARGET_PORT`. Accepted exactly when the
/// text splits on `:` into three parts, both ports denote 1 to 65535, and
/// the host is non-empty; otherwise the diagnostic for the first failing
/// check is returned.
pub fn parse_forwarding_rule(arg: &str) -> (r: Result<ForwardingRule, String>)
    ensures
        match r {
            Ok(rule) => rule_text_ok(arg@) && rule.local_port as int == port_of(
                rule_local_part(arg@),
            ) && rule.target_host@ == rule_host_part(arg@) && rule.target_port as int == port_of(
                rule_target_part(arg@),
            ),
            Err(msg) => !rule_text_ok(arg@) && msg@ == rule_error_text(arg@),
        },
{
    let ghost s = arg@;
    let n = arg.unicode_len();
    let first = find_colon_from(arg, 0);
    let i = match first {
        Some(i) => i,
        None => {
            proof {
                lemma_first_colon_none(s);
            }
            return Err(
                String::from_str("Invalid format '").concat(arg).concat(
                    "'. Expected LOCAL_PORT:TARGET_HOST:TARGET_PORT",
                ),
            );
        },
    };
    proof {
        lemma_first_colon_is(s, i as int);
    }
    let ghost rest = s.skip(i + 1);
    let second = find_colon_from(arg, i + 1);
    let j = match second {
        Some(j) => j,
        None => {
            proof {
                assert(forall|k: int|
                    0 <= k < rest.len() ==> rest[k] == s[k + i + 1] && rest[k] != ':');
                lemma_first_colon_none(rest);
            }
            return Err(
                String::from_str("Invalid format '").concat(arg).concat(
                    "'. Expected LOCAL_PORT:TARGET_HOST:TARGET_PORT",
                ),
            );
        },
    };
    proof {
        assert(forall|k: int| 0 <= k < rest.len() ==> rest[k] == s[k + i + 1]);
        assert(rest[j - i - 1] == ':');
        lemma_first_colon_is(rest, j - i - 1);
    }
    let ghost target = rest.skip(j - i);
    if let Some(extra) = find_colon_from(arg, j + 1) {
        proof {
            assert(forall|k: int| 0 <= k < target.len() ==> target[k] == s[k + j + 1]);
            assert(target[extra - j - 1] == ':');
            lemma_first_colon(target);
        }
        return Err(
            String::from_str("Invalid format '").concat(arg).concat(
                "'. Expected LOCAL_PORT:TARGET_HOST:TARGET_PORT",
            ),
        );
    }
    proof {
        assert(forall|k: int| 0 <= k < target.len() ==> target[k] == s[k + j + 1] && target[k]
            != ':');
        lemma_first_colon_none(target);
        assert(rule_shape_ok(s));
        assert(rule_local_part(s) =~= s.subrange(0, i as int));
        assert(rule_host_part(s) =~= s.subrange(i + 1, j as int));
        assert(rule_target_part(s) =~= s.subrange(j + 1, n as int));
    }
    let local_text = arg.substring_char(0, i);
    let host_text = arg.substring_char(i + 1, j);
    let target_text = arg.substring_char(j + 1, n);
    let local_port = match parse_port(local_text) {
        Some(p) => p,
        None => {
            return Err(
                String::from_str("Invalid local port '").concat(local_text).concat(
                    "'. Must be 1-65535",
                ),
            );
        },
    };
    if host_text.unicode_len() == 0 {
        return Err(String::from_str("Target host cannot be empty"));
    }
    let target_port = match parse_port(target_text) {
        Some(p) => p,
        None => {
            return Err(
                String::from_str("Invalid target port '").concat(target_text).concat(
                    "'. Must be 1-65535",
                ),
            );
        },
    };
    Ok(
        ForwardingRule {
            local_port,
            target_host: host_text.to_owned(),
            target_port,
        },
    )
}

/// True when no two rules claim the same local port.
pub open spec fn ports_unique(rules: Seq<ForwardingRule>) -> bool {
    forall|i: int, j: int|
        0 <= i < j < rules.len() ==> (#[trigger] rules[i]).local_port != (
        #[trigger] rules[j]).local_port
}

/// Check a rule set once at startup: every local port must be unique.
/// Accepts exactly the sets with pairwise distinct local ports; on a
/// duplicate, names the port and no listener is to be bound.
pub fn validate_rules(rules: &Vec<ForwardingRule>) -> (r: Result<(), String>)
    ensures
        r.is_ok() <==> ports_unique(rules@),
        r.is_err() ==> exists|i: int, j: int|
            0 <= i < j < rules@.len() && (#[trigger] rules@[i]).local_port == (
            #[trigger] rules@[j]).local_port && (r->Err_0)@ == "Duplicate local port "@
                + dec_digits(rules@[j].local_port as int),
{
    let n = rules.len();
    let mut j: usize = 1;
    if n == 0 {
        return Ok(());
    }
    while j < n
        invariant
            1 <= j <= n,
            n == rules@.len(),
            forall|a: int, b: int|
                0 <= a < b < j ==> (#[trigger] rules@[a]).local_port != (
                #[trigger] rules@[b]).local_port,
        decreases n - j,
    {
        let mut i: usize = 0;
        while i < j
            invariant
                0 <= i <= j < n,
                n == rules@.len(),
                forall|a: int|
                    0 <= a < i ==> (#[trigger] rules@[a]).local_port != rules@[j as int].local_port,
            decreases j - i,
        {
            if rules[i].local_port == rules[j].local_port {
                return Err(
                    String::from_str("Duplicate local port ").concat(
                        u16_string(rules[j].local_port).as_str(),
                    ),
                );
            }
            i += 1;
        }
        j += 1;
    }
    Ok(())
}

} // verus!
