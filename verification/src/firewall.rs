//! Exact semantics of the packet-filter commands.
//!
//! A peer's inbound rule table is modelled as the ordered sequence of
//! source addresses it drops traffic from.  `apply_rule_command` says
//! what each command does to that table; the laws below pin down the
//! partition protocol: partitioning blocks the source, healing a freshly
//! added block restores the table exactly, healing never touches
//! unrelated blocks, and a restore leaves no block at all.
//!
//! `RuleSet` is the executable model of one peer's table, used to drive
//! the protocol against concrete states.  Rule mutation is exclusive per
//! peer by construction: `apply` takes the set by `&mut`, so two
//! mutations of one table can never interleave, and the outcome of a
//! pair of operations is always one of their two serial compositions.

use vstd::prelude::*;
use crate::addr::PeerAddr;
use crate::commands::ip::IpTablesCommands;

verus! {

/// Remove the first rule for `source`, as the remote tool's delete does;
/// the table is unchanged when no rule matches.
pub open spec fn remove_first(rules: Seq<PeerAddr>, source: PeerAddr) -> Seq<PeerAddr>
    decreases rules.len(),
{
    if rules.len() == 0 {
        rules
    } else if rules[0] == source {
        rules.drop_first()
    } else {
        seq![rules[0]] + remove_first(rules.drop_first(), source)
    }
}

/// What each command leaves of a peer's inbound rule table.
pub open spec fn apply_rule_command(rules: Seq<PeerAddr>, c: IpTablesCommands) -> Seq<PeerAddr> {
    match c {
        IpTablesCommands::Restore => Seq::empty(),
        IpTablesCommands::RestoreFrom { source_addr } => remove_first(rules, source_addr),
        IpTablesCommands::DropFrom { source_addr } => rules.push(source_addr),
        IpTablesCommands::Get => rules,
    }
}

/// Deleting a rule that is not there leaves the table unchanged.
pub proof fn lemma_remove_first_absent(rules: Seq<PeerAddr>, source: PeerAddr)
    requires
        !rules.contains(source),
    ensures
        remove_first(rules, source) =~= rules,
    decreases rules.len(),
{
    if rules.len() > 0 {
        assert(rules[0] != source);
        assert(!rules.drop_first().contains(source)) by {
            assert(forall|i: int|
                0 <= i < rules.len() - 1 ==> rules.drop_first()[i] == rules[i + 1]);
        }
        lemma_remove_first_absent(rules.drop_first(), source);
        assert(seq![rules[0]] + rules.drop_first() =~= rules);
    }
}

/// Partitioning blocks the source: after a drop command, the table holds
/// a rule for it.
pub proof fn lemma_partition_blocks(rules: Seq<PeerAddr>, source: PeerAddr)
    ensures
        apply_rule_command(rules, IpTablesCommands::DropFrom { source_addr: source }).contains(
            source,
        ),
{
    let after = rules.push(source);
    assert(after[rules.len() as int] == source);
}

/// Healing right after partitioning restores the table exactly, when the
/// source was not already blocked: the partition/heal pair round-trips.
pub proof fn lemma_partition_heal_round_trip(rules: Seq<PeerAddr>, source: PeerAddr)
    requires
        !rules.contains(source),
    ensures
        apply_rule_command(
            apply_rule_command(rules, IpTablesCommands::DropFrom { source_addr: source }),
            IpTablesCommands::RestoreFrom { source_addr: source },
        ) =~= rules,
    decreases rules.len(),
{
    let pushed = rules.push(source);
    if rules.len() == 0 {
        assert(pushed[0] == source);
        assert(pushed.drop_first() =~= rules);
    } else {
        assert(pushed[0] == rules[0]);
        assert(rules[0] != source);
        assert(pushed.drop_first() =~= rules.drop_first().push(source));
        assert(!rules.drop_first().contains(source)) by {
            assert(forall|i: int|
                0 <= i < rules.len() - 1 ==> rules.drop_first()[i] == rules[i + 1]);
        }
        lemma_partition_heal_round_trip(rules.drop_first(), source);
        assert(remove_first(rules.drop_first().push(source), source) =~= rules.drop_first());
        assert(seq![rules[0]] + rules.drop_first() =~= rules);
    }
}

/// In particular, the healed table no longer blocks the source.
pub proof fn lemma_heal_unblocks(rules: Seq<PeerAddr>, source: PeerAddr)
    requires
        !rules.contains(source),
    ensures
        !apply_rule_command(
            apply_rule_command(rules, IpTablesCommands::DropFrom { source_addr: source }),
            IpTablesCommands::RestoreFrom { source_addr: source },
        ).contains(source),
{
    lemma_partition_heal_round_trip(rules, source);
}

/// Healing one pair never touches unrelated blocks: a rule for any other
/// source survives a delete exactly when it was there before.
pub proof fn lemma_heal_unrelated(rules: Seq<PeerAddr>, source: PeerAddr, other: PeerAddr)
    requires
        other != source,
    ensures
        remove_first(rules, source).contains(other) <==> rules.contains(other),
    decreases rules.len(),
{
    if rules.len() == 0 {
    } else if rules[0] == source {
        assert(forall|i: int|
            0 <= i < rules.len() - 1 ==> rules.drop_first()[i] == rules[i + 1]);
        if rules.drop_first().contains(other) {
            assert(rules.contains(other)) by {
                let w = choose|i: int|
                    0 <= i < rules.drop_first().len() && rules.drop_first()[i] == other;
                assert(rules[w + 1] == other);
            }
        }
        if rules.contains(other) {
            let w = choose|i: int| 0 <= i < rules.len() && rules[i] == other;
            assert(w != 0);
            assert(rules.drop_first()[w - 1] == other);
        }
    } else {
        lemma_heal_unrelated(rules.drop_first(), source, other);
        let rest = remove_first(rules.drop_first(), source);
        let whole = seq![rules[0]] + rest;
        assert(forall|i: int|
            0 <= i < rules.len() - 1 ==> rules.drop_first()[i] == rules[i + 1]);
        assert(forall|i: int| 0 <= i < rest.len() ==> whole[i + 1] == rest[i]);
        if rules.contains(other) {
            let w = choose|i: int| 0 <= i < rules.len() && rules[i] == other;
            if w == 0 {
                assert(whole[0] == other);
            } else {
                assert(rules.drop_first()[w - 1] == other);
                let v = choose|i: int| 0 <= i < rest.len() && rest[i] == other;
                assert(whole[v + 1] == other);
            }
        }
        if whole.contains(other) {
            let w = choose|i: int| 0 <= i < whole.len() && whole[i] == other;
            if w == 0 {
                assert(rules[0] == other);
            } else {
                assert(rest[w - 1] == other);
                let v = choose|i: int|
                    0 <= i < rules.drop_first().len() && rules.drop_first()[i] == other;
                assert(rules[v + 1] == other);
            }
        }
    }
}

/// A concurrent partition/heal pair on one peer lands in one of exactly
/// two serial outcomes, decided by whichever completed last: heal last
/// restores the table, partition last leaves exactly the one block.
/// Per-peer exclusivity admits no third, interleaved state.
pub proof fn lemma_serial_pair_outcomes(rules: Seq<PeerAddr>, source: PeerAddr)
    requires
        !rules.contains(source),
    ensures
        apply_rule_command(
            apply_rule_command(rules, IpTablesCommands::DropFrom { source_addr: source }),
            IpTablesCommands::RestoreFrom { source_addr: source },
        ) =~= rules,
        apply_rule_command(
            apply_rule_command(rules, IpTablesCommands::RestoreFrom { source_addr: source }),
            IpTablesCommands::DropFrom { source_addr: source },
        ) =~= rules.push(source),
{
    lemma_partition_heal_round_trip(rules, source);
    lemma_remove_first_absent(rules, source);
}

/// A restore leaves no blocking rule at all, whatever was there.
pub proof fn lemma_restore_clears(rules: Seq<PeerAddr>)
    ensures
        apply_rule_command(rules, IpTablesCommands::Restore).len() == 0,
        forall|a: PeerAddr| !apply_rule_command(rules, IpTablesCommands::Restore).contains(a),
{
}

/// The executable model of one peer's inbound rule table.
#[derive(Debug)]
pub struct RuleSet {
    rules: Vec<PeerAddr>,
}

impl View for RuleSet {
    type V = Seq<PeerAddr>;

    closed spec fn view(&self) -> Seq<PeerAddr> {
        self.rules@
    }
}

impl RuleSet {
    /// A fresh table with no rules.
    pub fn new() -> (r: RuleSet)
        ensures
            r@ =~= Seq::<PeerAddr>::empty(),
    {
        RuleSet { rules: Vec::new() }
    }

    /// Whether the table currently blocks traffic from `source`.
    pub fn blocks(&self, source: PeerAddr) -> (r: bool)
        ensures
            r == self@.contains(source),
    {
        let mut i: usize = 0;
        while i < self.rules.len()
            invariant
                0 <= i <= self.rules.len(),
                forall|j: int| 0 <= j < i ==> self.rules@[j] != source,
            decreases self.rules.len() - i,
        {
            if self.rules[i] == source {
                return true;
            }
            i = i + 1;
        }
        false
    }

    /// How many rules the table holds.
    pub fn rule_count(&self) -> (r: usize)
        ensures
            r == self@.len(),
    {
        self.rules.len()
    }

    /// The rule at a position, in table order.
    pub fn rule_at(&self, i: usize) -> (r: PeerAddr)
        requires
            i < self@.len(),
        ensures
            r == self@[i as int],
    {
        self.rules[i]
    }

    /// Apply one command's effect to the table.
    pub fn apply(&mut self, c: &IpTablesCommands)
        ensures
            final(self)@ =~= apply_rule_command(old(self)@, *c),
    {
        match *c {
            IpTablesCommands::Restore => {
                self.rules = Vec::new();
            },
            IpTablesCommands::DropFrom { source_addr } => {
                self.rules.push(source_addr);
            },
            IpTablesCommands::RestoreFrom { source_addr } => {
                let mut i: usize = 0;
                while i < self.rules.len()
                    invariant
                        *self == *old(self),
                        *c == (IpTablesCommands::RestoreFrom { source_addr }),
                        0 <= i <= self.rules.len(),
                        forall|j: int| 0 <= j < i ==> self.rules@[j] != source_addr,
                    decreases self.rules.len() - i,
                {
                    if self.rules[i] == source_addr {
                        self.rules.remove(i);
                        proof {
                            lemma_remove_first_at(old(self)@, source_addr, i as int);
                            assert(self.rules@ =~= old(self)@.remove(i as int));
                            assert(remove_first(old(self)@, source_addr) =~= old(self)@.remove(
                                i as int,
                            ));
                            assert(*c == (IpTablesCommands::RestoreFrom { source_addr }));
                            assert(self@ =~= apply_rule_command(old(self)@, *c));
                        }
                        return;
                    }
                    i = i + 1;
                }
                proof {
                    assert(!old(self)@.contains(source_addr));
                    lemma_remove_first_absent(old(self)@, source_addr);
                }
            },
            IpTablesCommands::Get => {},
        }
    }
}

/// Removing the first matching rule is removing the rule at the first
/// matching position.
proof fn lemma_remove_first_at(rules: Seq<PeerAddr>, source: PeerAddr, i: int)
    requires
        0 <= i < rules.len(),
        rules[i] == source,
        forall|j: int| 0 <= j < i ==> rules[j] != source,
    ensures
        remove_first(rules, source) =~= rules.remove(i),
    decreases i,
{
    if i == 0 {
        assert(rules.drop_first() =~= rules.remove(0));
    } else {
        assert(rules[0] != source);
        assert(forall|j: int| 0 <= j < rules.len() - 1 ==> rules.drop_first()[j] == rules[j + 1]);
        lemma_remove_first_at(rules.drop_first(), source, i - 1);
        assert(seq![rules[0]] + rules.drop_first().remove(i - 1) =~= rules.remove(i));
    }
}

} // verus!
