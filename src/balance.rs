use vstd::prelude::*;

verus! {

/// Balance, differentiated into various categories.
#[derive(Debug, PartialEq, Eq, Clone, Copy, Default, Structural)]
pub struct Balance {
    /// All coinbase outputs not yet matured.
    pub immature: u64,
    /// Unconfirmed outputs of transactions that the wallet authored.
    pub trusted_pending: u64,
    /// Unconfirmed outputs of transactions that the wallet did not author.
    pub untrusted_pending: u64,
    /// Confirmed and immediately spendable balance.
    pub confirmed: u64,
}

impl Balance {
    /// The sum of the four categories, as an unbounded integer.
    pub open spec fn total_spec(self) -> int {
        self.immature + self.trusted_pending + self.untrusted_pending + self.confirmed
    }

    /// The part that cannot be cancelled by another party: confirmed and trusted pending.
    pub open spec fn trusted_spendable_spec(self) -> int {
        self.confirmed + self.trusted_pending
    }

    /// Sum of trusted pending and confirmed coins.
    pub fn trusted_spendable(&self) -> (r: u64)
        requires
            self.trusted_spendable_spec() <= u64::MAX,
        ensures
            r == self.trusted_spendable_spec(),
    {
        self.confirmed + self.trusted_pending
    }

    /// The whole balance visible to the wallet.
    pub fn total(&self) -> (r: u64)
        requires
            self.total_spec() <= u64::MAX,
        ensures
            r == self.total_spec(),
    {
        self.confirmed + self.trusted_pending + self.untrusted_pending + self.immature
    }

    /// Adds two balances category by category.
    pub fn add(self, other: Balance) -> (r: Balance)
        requires
            self.immature + other.immature <= u64::MAX,
            self.trusted_pending + other.trusted_pending <= u64::MAX,
            self.untrusted_pending + other.untrusted_pending <= u64::MAX,
            self.confirmed + other.confirmed <= u64::MAX,
        ensures
            r.immature == self.immature + other.immature,
            r.trusted_pending == self.trusted_pending + other.trusted_pending,
            r.untrusted_pending == self.untrusted_pending + other.untrusted_pending,
            r.confirmed == self.confirmed + other.confirmed,
    {
        Balance {
            immature: self.immature + other.immature,
            trusted_pending: self.trusted_pending + other.trusted_pending,
            untrusted_pending: self.untrusted_pending + other.untrusted_pending,
            confirmed: self.confirmed + other.confirmed,
        }
    }
}

/// An unspent output of the best chain, with what its classification needs.
#[derive(Debug, PartialEq, Eq, Clone, Copy, Structural)]
pub struct Utxo {
    /// The amount the output holds.
    pub value: u64,
    /// Whether the creating transaction is a coinbase transaction.
    pub is_coinbase: bool,
    /// Confirmations of the creating transaction; zero when it is not anchored in the best chain.
    pub confirmations: u32,
    /// Whether the wallet itself authored the creating transaction.
    pub trusted: bool,
}

/// Whether a transaction counts as authored by the wallet: it has inputs, and every one of them
/// spends an output the wallet owns. `input_owned[i]` tells whether input `i` does.
pub fn authored_by_wallet(input_owned: &Vec<bool>) -> (r: bool)
    ensures
        r == (input_owned@.len() > 0 && forall|i: int| 0 <= i < input_owned@.len() ==> #[trigger] input_owned@[i]),
{
    if input_owned.len() == 0 {
        return false;
    }
    let mut i: usize = 0;
    while i < input_owned.len()
        invariant
            i <= input_owned.len(),
            forall|j: int| 0 <= j < i ==> #[trigger] input_owned@[j],
        decreases input_owned.len() - i,
    {
        if !input_owned[i] {
            return false;
        }
        i = i + 1;
    }
    true
}

/// The category of a balance an output falls in.
#[derive(Debug, PartialEq, Eq, Clone, Copy, Structural)]
pub enum Category {
    Immature,
    TrustedPending,
    UntrustedPending,
    Confirmed,
}

/// The category of `u`, where a coinbase output needs `maturity` confirmations to mature.
pub open spec fn category_of(u: Utxo, maturity: u32) -> Category {
    if u.is_coinbase && u.confirmations < maturity {
        Category::Immature
    } else if u.confirmations == 0 {
        if u.trusted {
            Category::TrustedPending
        } else {
            Category::UntrustedPending
        }
    } else {
        Category::Confirmed
    }
}

/// The sum of the values of the outputs of `us` in category `c`.
pub open spec fn category_sum(us: Seq<Utxo>, maturity: u32, c: Category) -> int
    decreases us.len(),
{
    if us.len() == 0 {
        0
    } else {
        category_sum(us.drop_last(), maturity, c) + if category_of(us.last(), maturity) == c {
            us.last().value as int
        } else {
            0
        }
    }
}

/// The sum of the values of all outputs of `us`.
pub open spec fn value_sum(us: Seq<Utxo>) -> int
    decreases us.len(),
{
    if us.len() == 0 {
        0
    } else {
        value_sum(us.drop_last()) + us.last().value
    }
}

/// The four categories of a classification together hold every output once: their sums add up
/// to the sum of all values.
pub proof fn lemma_categories_partition(us: Seq<Utxo>, maturity: u32)
    ensures
        category_sum(us, maturity, Category::Immature) + category_sum(us, maturity, Category::TrustedPending)
            + category_sum(us, maturity, Category::UntrustedPending) + category_sum(
            us,
            maturity,
            Category::Confirmed,
        ) == value_sum(us),
    decreases us.len(),
{
    if us.len() > 0 {
        lemma_categories_partition(us.drop_last(), maturity);
    }
}

proof fn lemma_category_sum_bounded(us: Seq<Utxo>, maturity: u32, c: Category)
    ensures
        0 <= category_sum(us, maturity, c) <= value_sum(us),
    decreases us.len(),
{
    if us.len() > 0 {
        lemma_category_sum_bounded(us.drop_last(), maturity, c);
    }
}

impl Balance {
    /// Classifies each output of `utxos` and sums each category. A coinbase output with fewer
    /// than `maturity` confirmations is immature; otherwise an output with no confirmation is
    /// trusted or untrusted pending by who authored it; any other output is confirmed.
    pub fn from_utxos(utxos: &Vec<Utxo>, maturity: u32) -> (r: Balance)
        requires
            value_sum(utxos@) <= u64::MAX,
        ensures
            r.immature == category_sum(utxos@, maturity, Category::Immature),
            r.trusted_pending == category_sum(utxos@, maturity, Category::TrustedPending),
            r.untrusted_pending == category_sum(utxos@, maturity, Category::UntrustedPending),
            r.confirmed == category_sum(utxos@, maturity, Category::Confirmed),
            r.total_spec() == value_sum(utxos@),
    {
        let mut b = Balance { immature: 0, trusted_pending: 0, untrusted_pending: 0, confirmed: 0 };
        let mut i: usize = 0;
        while i < utxos.len()
            invariant
                i <= utxos.len(),
                value_sum(utxos@) <= u64::MAX,
                b.immature == category_sum(utxos@.take(i as int), maturity, Category::Immature),
                b.trusted_pending == category_sum(utxos@.take(i as int), maturity, Category::TrustedPending),
                b.untrusted_pending == category_sum(utxos@.take(i as int), maturity, Category::UntrustedPending),
                b.confirmed == category_sum(utxos@.take(i as int), maturity, Category::Confirmed),
            decreases utxos.len() - i,
        {
            let u = utxos[i];
            let ghost pre = utxos@.take(i as int);
            let ghost next = utxos@.take(i + 1);
            proof {
                assert(next.drop_last() =~= pre);
                assert(next.last() == u);
                lemma_categories_partition(next, maturity);
                lemma_category_sum_bounded(next, maturity, Category::Immature);
                lemma_category_sum_bounded(next, maturity, Category::TrustedPending);
                lemma_category_sum_bounded(next, maturity, Category::UntrustedPending);
                lemma_category_sum_bounded(next, maturity, Category::Confirmed);
                lemma_prefix_sum_bounded(utxos@, i + 1);
            }
            if u.is_coinbase && u.confirmations < maturity {
                b.immature = b.immature + u.value;
            } else if u.confirmations == 0 {
                if u.trusted {
                    b.trusted_pending = b.trusted_pending + u.value;
                } else {
                    b.untrusted_pending = b.untrusted_pending + u.value;
                }
            } else {
                b.confirmed = b.confirmed + u.value;
            }
            i = i + 1;
        }
        proof {
            assert(utxos@.take(utxos@.len() as int) =~= utxos@);
            lemma_categories_partition(utxos@, maturity);
        }
        b
    }
}

proof fn lemma_prefix_sum_bounded(us: Seq<Utxo>, n: int)
    requires
        0 <= n <= us.len(),
    ensures
        value_sum(us.take(n)) <= value_sum(us),
    decreases us.len(),
{
    if n < us.len() {
        assert(us.drop_last().take(n) =~= us.take(n));
        lemma_prefix_sum_bounded(us.drop_last(), n);
    } else {
        assert(us.take(n) =~= us);
    }
}

} // verus!
