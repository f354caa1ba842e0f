//! What the administrative commands decide: which shards a typed prefix may
//! mean, what a restart is asked to do, and what its caller is told.

use crate::dispatch::{ShardRestartResult, ShardRestartType};
use vstd::prelude::*;

verus! {

/// How many choices an autocompletion offers at most.
pub const MAX_CHOICES: usize = 25;

/// Ten to the power of `digits`.
pub open spec fn pow10(digits: nat) -> nat
    decreases digits,
{
    if digits == 0 {
        1
    } else {
        10 * pow10((digits - 1) as nat)
    }
}

/// The numbers from `first` to `last`, both included, in increasing order;
/// none if `last` is below `first`.
pub open spec fn span(first: int, last: int) -> Seq<int> {
    Seq::new(
        if last >= first {
            (last - first + 1) as nat
        } else {
            0
        },
        |i: int| first + i,
    )
}

/// The numbers up to `max` that are `value` followed by `digits` more
/// digits, in increasing order.
pub open spec fn block(value: int, max: int, digits: nat) -> Seq<int> {
    let last = (value + 1) * pow10(digits) - 1;
    span(
        value * pow10(digits),
        if last <= max {
            last
        } else {
            max
        },
    )
}

/// The numbers up to `max` that are `value` followed by fewer than `digits`
/// more digits: those with no more digit first, then those with one, and so
/// on.
pub open spec fn blocks(value: int, max: int, digits: nat) -> Seq<int>
    decreases digits,
{
    if digits == 0 {
        Seq::empty()
    } else {
        blocks(value, max, (digits - 1) as nat) + block(value, max, (digits - 1) as nat)
    }
}

/// The numbers up to `max` whose decimal representation starts with that of
/// `value`, which is not 0. A `u32` has ten digits at most, so none of them
/// is `value` followed by ten digits or more.
pub open spec fn all_starting_with(value: u32, max: u32) -> Seq<int> {
    blocks(value as int, max as int, 10)
}

/// The numbers of `values` as integers.
pub open spec fn ints(values: Seq<u32>) -> Seq<int> {
    values.map_values(|value: u32| value as int)
}

/// The powers of ten grow.
proof fn lemma_pow10_grows(low: nat, high: nat)
    requires
        low <= high,
    ensures
        1 <= pow10(low) <= pow10(high),
    decreases high,
{
    if high > low {
        lemma_pow10_grows(low, (high - 1) as nat);
    } else if low > 0 {
        lemma_pow10_grows((low - 1) as nat, (low - 1) as nat);
    }
}

/// Past a block that lies beyond `max`, every block is empty.
proof fn lemma_blocks_end(value: int, max: int, from: nat, to: nat)
    requires
        value >= 1,
        from <= to,
        value * pow10(from) > max,
    ensures
        blocks(value, max, to) == blocks(value, max, from),
    decreases to,
{
    if to > from {
        let last = (to - 1) as nat;
        lemma_blocks_end(value, max, from, last);
        lemma_pow10_grows(from, last);
        assert(value * pow10(last) >= value * pow10(from)) by (nonlinear_arith)
            requires
                value >= 1,
                pow10(last) >= pow10(from),
        ;
        assert(block(value, max, last) =~= Seq::<int>::empty());
        assert(blocks(value, max, to) =~= blocks(value, max, last));
    }
}

/// The first blocks are where every longer run of blocks begins.
proof fn lemma_blocks_prefix(value: int, max: int, from: nat, to: nat)
    requires
        from <= to,
    ensures
        blocks(value, max, from).len() <= blocks(value, max, to).len(),
        blocks(value, max, to).take(blocks(value, max, from).len() as int) == blocks(
            value,
            max,
            from,
        ),
    decreases to,
{
    if to > from {
        let last = (to - 1) as nat;
        lemma_blocks_prefix(value, max, from, last);
        let shorter = blocks(value, max, from);
        let before = blocks(value, max, last);
        let all = blocks(value, max, to);
        assert(all == before + block(value, max, last));
        assert(all.take(shorter.len() as int) =~= before.take(shorter.len() as int));
    } else {
        assert(blocks(value, max, to).take(blocks(value, max, from).len() as int) =~= blocks(
            value,
            max,
            from,
        ));
    }
}

/// Whether `x` is `value` followed by `digits` more decimal digits.
pub open spec fn extends(x: int, value: int, digits: nat) -> bool {
    x / (pow10(digits) as int) == value
}

/// Whether the decimal representation of `x` starts with that of `value`.
pub open spec fn begins_with(x: int, value: int) -> bool {
    exists|digits: nat| #[trigger] extends(x, value, digits)
}

/// The numbers that are `value` followed by `digits` more digits are those
/// from `value` times the power of ten to just below the next multiple.
proof fn lemma_extends(x: int, value: int, digits: nat)
    requires
        0 <= x,
    ensures
        extends(x, value, digits) <==> value * pow10(digits) <= x < (value + 1) * pow10(digits),
{
    let p = pow10(digits) as int;
    lemma_pow10_grows(0, digits);
    vstd::arithmetic::div_mod::lemma_fundamental_div_mod(x, p);
    vstd::arithmetic::div_mod::lemma_mod_pos_bound(x, p);
    let q = x / p;
    let r = x % p;
    assert(x == p * q + r);
    if q == value {
        assert(value * p <= x < (value + 1) * p) by (nonlinear_arith)
            requires
                x == p * value + r,
                0 <= r < p,
        ;
    }
    if value * p <= x < (value + 1) * p {
        let rest = x - value * p;
        assert(0 <= rest < p) by (nonlinear_arith)
            requires
                value * p <= x < (value + 1) * p,
                rest == x - value * p,
        ;
        vstd::arithmetic::div_mod::lemma_fundamental_div_mod_converse(x, p, value, rest);
    }
}

/// What the first blocks hold: numbers from `value` to `max` below the
/// start of the next block, each `value` followed by fewer than `digits`
/// digits, in increasing order, and every such number.
proof fn lemma_blocks_hold(value: int, max: int, digits: nat)
    requires
        value >= 1,
        max >= 0,
    ensures
        forall|i: int|
            0 <= i < blocks(value, max, digits).len() ==> value <= (#[trigger] blocks(
                value,
                max,
                digits,
            )[i]) <= max && blocks(value, max, digits)[i] < value * pow10(digits) && begins_with(
                blocks(value, max, digits)[i],
                value,
            ),
        forall|i: int, j: int|
            0 <= i < j < blocks(value, max, digits).len() ==> (#[trigger] blocks(
                value,
                max,
                digits,
            )[i]) < (#[trigger] blocks(value, max, digits)[j]),
        forall|x: int, fewer: nat|
            fewer < digits && 0 <= x <= max && #[trigger] extends(x, value, fewer) ==> blocks(
                value,
                max,
                digits,
            ).contains(x),
    decreases digits,
{
    let all = blocks(value, max, digits);
    if digits > 0 {
        let d = (digits - 1) as nat;
        let before = blocks(value, max, d);
        let here = block(value, max, d);
        lemma_blocks_hold(value, max, d);
        lemma_pow10_grows(0, d);
        let p = pow10(d) as int;
        assert(pow10(digits) == 10 * p);
        assert(all == before + here);
        assert(value * p >= value && (value + 1) * p <= value * (10 * p)) by (nonlinear_arith)
            requires
                value >= 1,
                p >= 1,
        ;
        assert(value * pow10(digits) == value * (10 * p));
        assert forall|i: int| 0 <= i < all.len() implies value <= (#[trigger] all[i]) <= max
            && all[i] < value * pow10(digits) && begins_with(all[i], value) by {
            if i >= before.len() {
                let x = here[i - before.len()];
                assert(all[i] == x);
                assert(x == value * p + (i - before.len()));
                assert(x <= (value + 1) * p - 1 && x <= max);
                lemma_extends(x, value, d);
                assert(extends(x, value, d));
            } else {
                assert(all[i] == before[i]);
                assert(before[i] < value * p);
                assert(value * p <= value * (10 * p)) by (nonlinear_arith)
                    requires
                        value >= 1,
                        p >= 1,
                ;
            }
        }
        assert forall|i: int, j: int| 0 <= i < j < all.len() implies (#[trigger] all[i]) < (
        #[trigger] all[j]) by {
            if j < before.len() {
                assert(all[i] == before[i] && all[j] == before[j]);
            } else if i < before.len() {
                assert(all[i] == before[i]);
                assert(all[j] == here[j - before.len()]);
            } else {
                assert(all[i] == here[i - before.len()]);
                assert(all[j] == here[j - before.len()]);
            }
        }
        assert forall|x: int, fewer: nat|
            fewer < digits && 0 <= x <= max && #[trigger] extends(
                x,
                value,
                fewer,
            ) implies all.contains(x) by {
            if fewer < d {
                assert(before.contains(x));
                let i = choose|i: int| 0 <= i < before.len() && before[i] == x;
                assert(all[i] == x);
            } else {
                lemma_extends(x, value, d);
                let i = x - value * p;
                assert(here[i] == x);
                assert(all[before.len() + i] == x);
            }
        }
    }
}

/// The numbers that [`starts_with`] gives when it is given room for all of
/// them are exactly the numbers up to `max` whose decimal representation
/// starts with that of `value`, each once and in increasing order.
pub proof fn lemma_all_starting_with(value: u32, max: u32)
    requires
        value != 0,
    ensures
        forall|i: int|
            0 <= i < all_starting_with(value, max).len() ==> value <= (#[trigger] all_starting_with(
                value,
                max,
            )[i]) <= max && begins_with(all_starting_with(value, max)[i], value as int),
        forall|i: int, j: int|
            0 <= i < j < all_starting_with(value, max).len() ==> (#[trigger] all_starting_with(
                value,
                max,
            )[i]) < (#[trigger] all_starting_with(value, max)[j]),
        forall|x: int|
            0 <= x <= max && begins_with(x, value as int) ==> #[trigger] all_starting_with(
                value,
                max,
            ).contains(x),
{
    let v = value as int;
    let m = max as int;
    lemma_blocks_hold(v, m, 10);
    assert forall|x: int| 0 <= x <= max && begins_with(x, v) implies #[trigger] blocks(
        v,
        m,
        10,
    ).contains(x) by {
        let digits = choose|digits: nat| #[trigger] extends(x, v, digits);
        if digits >= 10 {
            lemma_extends(x, v, digits);
            lemma_pow10_grows(10, digits);
            assert(pow10(10) == 10_000_000_000) by {
                reveal_with_fuel(pow10, 11);
            }
            assert(v * pow10(digits) >= pow10(digits)) by (nonlinear_arith)
                requires
                    v >= 1,
            ;
        }
    }
}

/// Nine more digits make a factor of a thousand million at most.
proof fn lemma_pow10_bound(digits: nat)
    requires
        digits <= 9,
    ensures
        1 <= pow10(digits) <= 1_000_000_000,
{
    lemma_pow10_grows(digits, 9);
    assert(pow10(9) == 1_000_000_000) by {
        reveal_with_fuel(pow10, 10);
    }
}

/// Gives the numbers up to `max` whose decimal representation starts with
/// that of `value`, in increasing order, and no more than the first `limit`
/// of them: `value` itself, then `value` followed by one more digit, by two,
/// and so on.
pub fn starts_with(value: u32, max: u32, limit: usize) -> (values: Vec<u32>)
    requires
        value != 0,
    ensures
        values@.len() <= limit,
        values@.len() <= all_starting_with(value, max).len(),
        values@.len() == limit || values@.len() == all_starting_with(value, max).len(),
        ints(values@) == all_starting_with(value, max).take(values@.len() as int),
{
    let mut values: Vec<u32> = Vec::new();
    let mut scale: u64 = 1;
    let mut digits: u32 = 0;
    let ghost v = value as int;
    let ghost m = max as int;
    proof {
        assert(blocks(v, m, 0) =~= Seq::<int>::empty());
        assert(ints(values@) =~= Seq::<int>::empty());
        lemma_blocks_prefix(v, m, 0, 10);
    }
    loop
        invariant_except_break
            digits <= 10,
            scale == pow10(digits as nat),
            values@.len() <= limit,
            values@.len() == blocks(v, m, digits as nat).len(),
            ints(values@) == blocks(v, m, digits as nat),
            blocks(v, m, digits as nat).len() <= blocks(v, m, 10).len(),
            blocks(v, m, 10).take(blocks(v, m, digits as nat).len() as int) == blocks(
                v,
                m,
                digits as nat,
            ),
        invariant
            v == value as int,
            m == max as int,
            value != 0,
        ensures
            values@.len() <= limit,
            values@.len() <= blocks(v, m, 10).len(),
            values@.len() == limit || values@.len() == blocks(v, m, 10).len(),
            ints(values@) == blocks(v, m, 10).take(values@.len() as int),
        decreases 10 - digits,
    {
        if digits >= 10 || values.len() >= limit {
            proof {
                if digits >= 10 {
                    assert(blocks(v, m, 10).take(values@.len() as int) =~= blocks(v, m, 10));
                }
            }
            break ;
        }
        proof {
            lemma_pow10_bound(digits as nat);
        }
        assert(value as u64 * scale <= 0xFFFF_FFFF * 1_000_000_000) by (nonlinear_arith)
            requires
                value <= 0xFFFF_FFFF,
                scale <= 1_000_000_000,
        ;
        let first: u64 = value as u64 * scale;
        if first > max as u64 {
            proof {
                lemma_blocks_end(v, m, digits as nat, 10);
                assert(blocks(v, m, 10).take(values@.len() as int) =~= blocks(v, m, 10));
            }
            break ;
        }
        assert((value as u64 + 1) * scale <= 0x1_0000_0000 * 1_000_000_000 && (value as u64 + 1)
            * scale >= 1) by (nonlinear_arith)
            requires
                value <= 0xFFFF_FFFF,
                1 <= scale <= 1_000_000_000,
        ;
        let bound: u64 = (value as u64 + 1) * scale - 1;
        let last: u64 = if bound <= max as u64 {
            bound
        } else {
            max as u64
        };
        assert(first <= last) by (nonlinear_arith)
            requires
                first == value * scale,
                bound == (value + 1) * scale - 1,
                scale >= 1,
                first <= max,
                last == bound || last == max,
        ;
        assert(block(v, m, digits as nat) == span(first as int, last as int));
        let ghost before = values@;
        let mut next: u64 = first;
        assert(ints(values@) =~= ints(before) + span(first as int, next as int - 1));
        while next <= last && values.len() < limit
            invariant
                first <= next <= last + 1,
                last <= u32::MAX,
                values@.len() <= limit,
                ints(values@) == ints(before) + span(first as int, next as int - 1),
            decreases last + 1 - next,
        {
            let ghost earlier = values@;
            values.push(next as u32);
            assert(ints(values@) =~= ints(earlier).push(next as int));
            assert(ints(values@) =~= ints(before) + span(first as int, next as int));
            next = next + 1;
        }
        let ghost whole = blocks(v, m, (digits + 1) as nat);
        proof {
            assert(whole == ints(before) + span(first as int, last as int));
            lemma_blocks_prefix(v, m, (digits + 1) as nat, 10);
            assert(ints(values@).len() == values@.len());
        }
        if next <= last {
            proof {
                assert(ints(values@) =~= whole.take(values@.len() as int));
                assert(blocks(v, m, 10).take(whole.len() as int).take(values@.len() as int)
                    =~= blocks(v, m, 10).take(values@.len() as int));
            }
            break ;
        }
        proof {
            assert(ints(values@) =~= whole);
        }
        scale = scale * 10;
        digits = digits + 1;
    }
    values
}

/// The number that the standard library reads from `text` as a `u32`, if
/// it reads one.
pub uninterp spec fn parsed_shard(text: Seq<char>) -> Option<u32>;

/// Calls `str::parse::<u32>` on `text`, and gives the number if there is
/// one. The contract only names the result.
#[verifier::external_body]
fn parse_shard(text: &str) -> (shard: Option<u32>)
    ensures
        shard == parsed_shard(text@),
{
    text.parse::<u32>().ok()
}

/// The shards that are offered for what was typed so far, in a run of
/// `shards` shards: none if no number was typed; shard 0 for 0; else the
/// first `MAX_CHOICES` of the shards whose number starts with what was typed.
pub open spec fn offered(typed: Option<u32>, shards: u32) -> Seq<int> {
    match typed {
        None => Seq::empty(),
        Some(id) => if id == 0 {
            seq![0int]
        } else {
            let all = all_starting_with(id, (shards - 1) as u32);
            if all.len() <= MAX_CHOICES {
                all
            } else {
                all.take(MAX_CHOICES as int)
            }
        },
    }
}

/// Gives the shards to offer for the number that was typed so far, if one
/// was, in a run of `shards` shards.
pub fn choices(typed: Option<u32>, shards: u32) -> (shard_ids: Vec<u32>)
    requires
        shards > 0,
    ensures
        ints(shard_ids@) == offered(typed, shards),
{
    match typed {
        None => {
            let shard_ids: Vec<u32> = Vec::new();
            assert(ints(shard_ids@) =~= Seq::<int>::empty());
            shard_ids
        },
        Some(id) => {
            if id == 0 {
                let mut shard_ids: Vec<u32> = Vec::new();
                shard_ids.push(0);
                assert(ints(shard_ids@) =~= seq![0int]);
                shard_ids
            } else {
                let shard_ids = starts_with(id, shards - 1, MAX_CHOICES);
                proof {
                    let all = all_starting_with(id, (shards - 1) as u32);
                    if shard_ids@.len() == all.len() {
                        assert(all.take(all.len() as int) =~= all);
                    }
                }
                shard_ids
            }
        },
    }
}

/// Gives the shards to offer for the text that was typed so far, in a run
/// of `shards` shards.
pub fn autocomplete(typed: &str, shards: u32) -> (shard_ids: Vec<u32>)
    requires
        shards > 0,
    ensures
        ints(shard_ids@) == offered(parsed_shard(typed@), shards),
{
    choices(parse_shard(typed), shards)
}

/// The policy of a restart that was asked for with the option `resume`:
/// the session is kept only if the option is given and set.
pub fn restart_kind(resume: Option<bool>) -> (kind: ShardRestartType)
    ensures
        kind == if resume == Some(true) {
            ShardRestartType::Resume
        } else {
            ShardRestartType::Normal
        },
{
    match resume {
        Some(true) => ShardRestartType::Resume,
        _ => ShardRestartType::Normal,
    }
}

/// What the caller of a restart command is told in the end.
#[derive(Clone, Copy, Debug, PartialEq, Eq, Structural)]
pub enum RestartReport {
    /// The request replaced a pending one; nothing was waited for.
    ForceRestarted,
    /// The shard was restarted and a new generation is live.
    Restarted,
    /// The shard went down for good.
    ShutDown,
}

/// What a restart command answers at once: the final report if the request
/// was forced, and nothing yet if it was accepted, in which case the command
/// waits for the generation to end.
pub fn acknowledge(result: ShardRestartResult) -> (report: Option<RestartReport>)
    ensures
        report == if result == ShardRestartResult::ForcedRestart {
            Some(RestartReport::ForceRestarted)
        } else {
            None::<RestartReport>
        },
{
    match result {
        ShardRestartResult::ForcedRestart => Some(RestartReport::ForceRestarted),
        ShardRestartResult::Restarted => None,
    }
}

/// What a restart command reports once the generation has ended: a restart
/// if the shard has a valid handle again, a shutdown if not.
pub fn conclude(valid: bool) -> (report: RestartReport)
    ensures
        report == if valid {
            RestartReport::Restarted
        } else {
            RestartReport::ShutDown
        },
{
    if valid {
        RestartReport::Restarted
    } else {
        RestartReport::ShutDown
    }
}

impl RestartReport {
    /// The text of the report.
    pub fn message(&self) -> (text: &'static str)
        ensures
            text@ == match *self {
                RestartReport::ForceRestarted => "Force restarted shard"@,
                RestartReport::Restarted => "Shard restarted"@,
                RestartReport::ShutDown => "Bot shut down"@,
            },
    {
        match self {
            RestartReport::ForceRestarted => "Force restarted shard",
            RestartReport::Restarted => "Shard restarted",
            RestartReport::ShutDown => "Bot shut down",
        }
    }
}

/// The commands that the bot knows.
#[derive(Clone, Copy, Debug, PartialEq, Eq, Structural)]
pub enum Type {
    /// Answers with a greeting.
    Ping,
    /// Restarts a shard.
    Restart,
}

impl Type {
    /// The command's name.
    pub fn name(&self) -> (name: &'static str)
        ensures
            name@ == match *self {
                Type::Ping => "ping"@,
                Type::Restart => "restart"@,
            },
    {
        match self {
            Type::Ping => "ping",
            Type::Restart => "restart",
        }
    }

    /// Whether `name` is the name of a command.
    pub open spec fn named(name: Seq<char>) -> bool {
        name == "ping"@ || name == "restart"@
    }

    /// Whether `name` is the name of a command.
    pub fn is_name(name: &str) -> (known: bool)
        ensures
            known == Type::named(name@),
    {
        let name = name.to_owned();
        name == Type::Ping.name().to_owned() || name == Type::Restart.name().to_owned()
    }

    /// The command of the name `name`, which has to be the name of one.
    pub fn from(name: &str) -> (command: Type)
        requires
            Type::named(name@),
        ensures
            command == if name@ == "ping"@ {
                Type::Ping
            } else {
                Type::Restart
            },
    {
        if name.to_owned() == Type::Ping.name().to_owned() {
            Type::Ping
        } else {
            Type::Restart
        }
    }
}

/// What kind of interaction arrived.
#[derive(Clone, Copy, Debug, PartialEq, Eq, Structural)]
pub enum InteractionKind {
    /// A command asks for completions of what was typed.
    Autocomplete,
    /// A command was invoked.
    Command,
    /// Anything else.
    Other,
}

/// Which handler an interaction goes to.
#[derive(Clone, Copy, Debug, PartialEq, Eq, Structural)]
pub enum Route {
    /// To none.
    Ignore,
    /// To the completion handler of a command.
    Autocomplete(Type),
    /// To the handler of a command.
    Run(Type),
}

/// Routes an interaction of the kind `kind` that names the command
/// `command`.
pub fn interaction(kind: InteractionKind, command: Type) -> (route: Route)
    ensures
        route == match kind {
            InteractionKind::Autocomplete => Route::Autocomplete(command),
            InteractionKind::Command => Route::Run(command),
            InteractionKind::Other => Route::Ignore,
        },
{
    match kind {
        InteractionKind::Autocomplete => Route::Autocomplete(command),
        InteractionKind::Command => Route::Run(command),
        InteractionKind::Other => Route::Ignore,
    }
}

/// What the bot answers to a message of the content `content`: a greeting
/// to a ping, and nothing to anything else.
pub fn message(content: &str) -> (reply: Option<&'static str>)
    ensures
        content@ == "!ping"@ ==> (reply matches Some(text) && text@ == "Pong!"@),
        content@ != "!ping"@ ==> reply is None,
{
    if content.to_owned() == "!ping".to_owned() {
        Some("Pong!")
    } else {
        None
    }
}

} // verus!
