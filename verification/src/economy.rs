//! GreyCoins: wallets, daily claims, purchases, and the shop's items.
//!
//! Reading and writing wallets is the store's part; these functions decide from the
//! wallet that was read. Times are milliseconds since the Unix epoch.
use crate::chance::random_in_range;
use crate::clock::{datetime_text, utc_datetime_text};
use crate::text::{decimal, i64_to_string, lowercase, owned, push_signed_decimal, push_str, signed_decimal, str_contains, to_lowercase};
use vstd::prelude::*;

verus! {

// ---------------------------------------------------------------------------
// Shop items
// ---------------------------------------------------------------------------

/// The items the shop sells.
#[derive(Debug, Clone, Copy, PartialEq, Eq, Structural, Hash)]
pub enum ItemId {
    DailyStreakSaver,
}

/// The stored name of an item.
pub open spec fn item_key(id: ItemId) -> Seq<char> {
    match id {
        ItemId::DailyStreakSaver => "daily_streak_saver"@,
    }
}

impl ItemId {
    /// The name under which the item is stored.
    pub fn as_str(&self) -> (s: &'static str)
        ensures
            s@ == item_key(*self),
    {
        match self {
            ItemId::DailyStreakSaver => "daily_streak_saver",
        }
    }

    /// The item stored under a name, if any.
    pub fn from_str(s: &str) -> (r: Option<ItemId>)
        ensures
            r matches Some(id) ==> item_key(id) == s@,
            r is None ==> forall|id: ItemId| item_key(id) != s@,
    {
        if crate::text::str_eq(s, "daily_streak_saver") {
            Some(ItemId::DailyStreakSaver)
        } else {
            assert forall|id: ItemId| item_key(id) != s@ by {
                match id {
                    ItemId::DailyStreakSaver => {},
                }
            }
            None
        }
    }

    /// Every item, in shop order.
    pub fn all() -> (v: Vec<ItemId>)
        ensures
            v@ == seq![ItemId::DailyStreakSaver],
    {
        let mut v: Vec<ItemId> = Vec::new();
        v.push(ItemId::DailyStreakSaver);
        v
    }
}

/// An item with what the shop shows of it.
#[derive(Debug, Clone)]
pub struct ShopItem {
    pub id: ItemId,
    pub name: &'static str,
    pub description: &'static str,
    pub price: i64,
    pub emoji: &'static str,
}

/// Name, description, price and emoji of an item.
pub open spec fn item_info(id: ItemId) -> (Seq<char>, Seq<char>, i64, Seq<char>) {
    match id {
        ItemId::DailyStreakSaver => (
            "Daily Streak Saver"@,
            "Automatically preserves your daily streak if you forget to claim your daily reward"@,
            100,
            "🛡️"@,
        ),
    }
}

pub open spec fn describes(item: ShopItem, id: ItemId) -> bool {
    let (n, d, p, e) = item_info(id);
    &&& item.id == id
    &&& item.name@ == n
    &&& item.description@ == d
    &&& item.price == p
    &&& item.emoji@ == e
}

impl ShopItem {
    /// The shop entry of an item.
    pub fn get(id: &ItemId) -> (item: ShopItem)
        ensures
            describes(item, *id),
    {
        match id {
            ItemId::DailyStreakSaver => ShopItem {
                id: *id,
                name: "Daily Streak Saver",
                description: "Automatically preserves your daily streak if you forget to claim your daily reward",
                price: 100,
                emoji: "🛡️",
            },
        }
    }

    /// Every shop entry, in shop order.
    pub fn all() -> (v: Vec<ShopItem>)
        ensures
            v@.len() == 1,
            describes(v@[0], ItemId::DailyStreakSaver),
    {
        let ids = ItemId::all();
        let mut v: Vec<ShopItem> = Vec::new();
        let mut i: usize = 0;
        while i < ids.len()
            invariant
                ids@ == seq![ItemId::DailyStreakSaver],
                i <= ids.len(),
                v@.len() == i,
                forall|j: int| 0 <= j < i ==> describes(#[trigger] v@[j], ids@[j]),
            decreases ids.len() - i,
        {
            v.push(ShopItem::get(&ids[i]));
            i = i + 1;
        }
        v
    }
}

/// Whether a partial text matches an item for autocompletion: it occurs, ignoring case,
/// in the stored name or in the display name.
pub open spec fn item_matches(id: ItemId, partial: Seq<char>) -> bool {
    let p = lowercase(partial);
    crate::text::seq_contains(lowercase(item_key(id)), p) || crate::text::seq_contains(lowercase(item_info(id).0), p)
}

/// The stored names of the items that match a partial text, in shop order.
pub fn matching_items(partial: &str) -> (r: Vec<String>)
    ensures
        item_matches(ItemId::DailyStreakSaver, partial@) ==> r@.len() == 1 && r@[0]@ == item_key(ItemId::DailyStreakSaver),
        !item_matches(ItemId::DailyStreakSaver, partial@) ==> r@.len() == 0,
{
    let items = ShopItem::all();
    let p = to_lowercase(partial);
    let mut r: Vec<String> = Vec::new();
    let mut i: usize = 0;
    while i < items.len()
        invariant
            items@.len() == 1,
            describes(items@[0], ItemId::DailyStreakSaver),
            p@ == lowercase(partial@),
            i <= 1,
            i == 0 ==> r@.len() == 0,
            i == 1 ==> (item_matches(ItemId::DailyStreakSaver, partial@) ==> r@.len() == 1 && r@[0]@ == item_key(ItemId::DailyStreakSaver)),
            i == 1 ==> (!item_matches(ItemId::DailyStreakSaver, partial@) ==> r@.len() == 0),
        decreases items.len() - i,
    {
        let key = to_lowercase(items[i].id.as_str());
        let name = to_lowercase(items[i].name);
        if str_contains(key.as_str(), p.as_str()) || str_contains(name.as_str(), p.as_str()) {
            r.push(owned(items[i].id.as_str()));
        }
        i = i + 1;
    }
    r
}

// ---------------------------------------------------------------------------
// Wallets and errors
// ---------------------------------------------------------------------------

/// A user's wallet in one guild.
#[derive(Debug, Clone, Copy)]
pub struct Wallet {
    pub user_id: u64,
    pub guild_id: u64,
    pub balance: i64,
    pub last_daily: Option<i64>,
    pub total_earned: i64,
}

/// A coin movement, kept for the audit trail: positive for awards, negative for purchases.
#[derive(Debug, Clone)]
pub struct Transaction {
    pub user_id: u64,
    pub guild_id: u64,
    pub amount: i64,
    pub reason: String,
    pub timestamp: i64,
}

/// The outcome of a daily claim.
#[derive(Debug, Clone, Copy)]
pub struct DailyClaimResult {
    pub coins_awarded: i64,
    pub new_balance: i64,
    pub next_claim_time: i64,
}

/// Why an economy operation failed.
#[derive(Debug)]
pub enum EconomyError {
    InsufficientFunds { required: i64, available: i64 },
    OnCooldown { available_at: i64 },
    StoreError(String),
}

pub open spec fn economy_error_text(e: EconomyError) -> Seq<char> {
    match e {
        EconomyError::InsufficientFunds { required, available } => "Insufficient funds: need "@ + signed_decimal(
            required as int,
        ) + " coins, but only have "@ + signed_decimal(available as int),
        EconomyError::OnCooldown { available_at } => "On cooldown until "@ + utc_datetime_text(available_at),
        EconomyError::StoreError(m) => "Store error: "@ + m@,
    }
}

impl EconomyError {
    /// The human-readable message of the error.
    pub fn message(&self) -> (s: String)
        ensures
            s@ == economy_error_text(*self),
    {
        match self {
            EconomyError::InsufficientFunds { required, available } => {
                let mut s = owned("Insufficient funds: need ");
                push_signed_decimal(&mut s, *required);
                push_str(&mut s, " coins, but only have ");
                push_signed_decimal(&mut s, *available);
                s
            },
            EconomyError::OnCooldown { available_at } => {
                let mut s = owned("On cooldown until ");
                let t = datetime_text(*available_at);
                push_str(&mut s, t.as_str());
                s
            },
            EconomyError::StoreError(m) => {
                let mut s = owned("Store error: ");
                push_str(&mut s, m.as_str());
                s
            },
        }
    }
}

/// The text of the error for a non-positive amount.
pub open spec fn non_positive_text() -> Seq<char> {
    "Amount must be positive"@
}

// ---------------------------------------------------------------------------
// Rules
// ---------------------------------------------------------------------------

/// Settings of the economy. (The chance of a random message reward is a probability
/// and is kept by the caller.)
#[derive(Debug, Clone, Copy)]
pub struct EconomyConfig {
    /// Coins for a daily claim.
    pub daily_reward: i64,
    /// Hours between daily claims.
    pub daily_cooldown_hours: i64,
    /// Fewest coins of a random message reward.
    pub message_reward_min: i64,
    /// Most coins of a random message reward.
    pub message_reward_max: i64,
}

impl Default for EconomyConfig {
    /// 10 coins a day, every 24 hours; 1 to 5 coins for a random message reward.
    fn default() -> (c: EconomyConfig)
        ensures
            c.daily_reward == 10,
            c.daily_cooldown_hours == 24,
            c.message_reward_min == 1,
            c.message_reward_max == 5,
    {
        EconomyConfig { daily_reward: 10, daily_cooldown_hours: 24, message_reward_min: 1, message_reward_max: 5 }
    }
}

/// The coins of a random message reward: drawn uniformly between the configured least and
/// most (the chance of a reward at all is a probability and stays with the caller).
pub fn roll_message_reward(config: &EconomyConfig) -> (r: i64)
    requires
        config.message_reward_min <= config.message_reward_max,
    ensures
        config.message_reward_min <= r <= config.message_reward_max,
{
    let span: u64 = (config.message_reward_max as i128 - config.message_reward_min as i128) as u64;
    let offset = random_in_range(0, span);
    (config.message_reward_min as i128 + offset as i128) as i64
}

/// Milliseconds in an hour.
pub const MS_PER_HOUR: i64 = 3_600_000;

/// When the next daily claim opens after a claim at `last`.
pub open spec fn next_daily_at(last: i64, hours: i64) -> int {
    last + hours * MS_PER_HOUR
}

/// Whether a daily claim at `now` is still on cooldown.
pub open spec fn daily_on_cooldown(last: Option<i64>, now: i64, hours: i64) -> bool {
    match last {
        Some(l) => now < next_daily_at(l, hours),
        None => false,
    }
}

/// Checks that an amount to award or deduct is positive.
pub fn check_amount(amount: i64) -> (r: Result<(), EconomyError>)
    ensures
        amount > 0 <==> r is Ok,
        r matches Err(e) ==> e matches EconomyError::StoreError(m) && m@ == non_positive_text(),
{
    if amount <= 0 {
        return Err(EconomyError::StoreError(owned("Amount must be positive")));
    }
    Ok(())
}

/// The transaction recorded for an award.
pub fn award_transaction(user_id: u64, guild_id: u64, amount: i64, reason: String, now: i64) -> (t: Transaction)
    ensures
        t.user_id == user_id,
        t.guild_id == guild_id,
        t.amount == amount,
        t.reason@ == reason@,
        t.timestamp == now,
{
    Transaction { user_id, guild_id, amount, reason, timestamp: now }
}

/// When the wallet's next daily claim opens, if it has claimed before.
pub fn next_daily_time(wallet: &Wallet, config: &EconomyConfig) -> (r: Option<i64>)
    requires
        wallet.last_daily matches Some(l) ==> i64::MIN <= next_daily_at(l, config.daily_cooldown_hours) <= i64::MAX,
    ensures
        match wallet.last_daily {
            Some(l) => r == Some(next_daily_at(l, config.daily_cooldown_hours) as i64),
            None => r is None,
        },
{
    match wallet.last_daily {
        Some(l) => {
            let h = config.daily_cooldown_hours as i128 * MS_PER_HOUR as i128;
            Some((l as i128 + h) as i64)
        },
        None => None,
    }
}

/// What a daily claim comes to.
#[derive(Debug, Clone, Copy)]
pub enum DailyDecision {
    /// Still on cooldown: nothing is awarded.
    Cooldown,
    /// Award `amount` coins; the next claim opens at `next_claim_time`.
    Claim { amount: i64, next_claim_time: i64 },
}

/// Decides a daily claim at `now` from the wallet that was read.
pub fn decide_daily(wallet: &Wallet, now: i64, config: &EconomyConfig) -> (d: DailyDecision)
    requires
        i64::MIN <= next_daily_at(now, config.daily_cooldown_hours) <= i64::MAX,
    ensures
        daily_on_cooldown(wallet.last_daily, now, config.daily_cooldown_hours) <==> d is Cooldown,
        d matches DailyDecision::Claim { amount, next_claim_time } ==> amount == config.daily_reward
            && next_claim_time == next_daily_at(now, config.daily_cooldown_hours),
{
    let h: i128 = config.daily_cooldown_hours as i128 * MS_PER_HOUR as i128;
    match wallet.last_daily {
        Some(l) => {
            if (now as i128) < l as i128 + h {
                return DailyDecision::Cooldown;
            }
        },
        None => {},
    }
    DailyDecision::Claim { amount: config.daily_reward, next_claim_time: (now as i128 + h) as i64 }
}

/// Daily coins come once per cooldown: right after a claim at `now` (which sets the
/// wallet's last claim to `now`) a claim is refused, and from `next_daily_at(now, hours)`
/// on it is allowed again; a wallet that never claimed may always claim.
pub proof fn lemma_daily_cooldown(now: i64, later: i64, hours: i64)
    requires
        hours > 0,
    ensures
        daily_on_cooldown(Some(now), now, hours),
        now <= later < next_daily_at(now, hours) ==> daily_on_cooldown(Some(now), later, hours),
        later >= next_daily_at(now, hours) ==> !daily_on_cooldown(Some(now), later, hours),
        !daily_on_cooldown(None, later, hours),
{
    assert(hours * MS_PER_HOUR > 0) by (nonlinear_arith)
        requires
            hours > 0,
            MS_PER_HOUR == 3_600_000,
    ;
}

/// The outcome shown for a successful daily claim.
pub fn daily_claim_result(amount: i64, new_balance: i64, next_claim_time: i64) -> (r: DailyClaimResult)
    ensures
        r.coins_awarded == amount,
        r.new_balance == new_balance,
        r.next_claim_time == next_claim_time,
{
    DailyClaimResult { coins_awarded: amount, new_balance, next_claim_time }
}

/// Checks a purchase against the wallet that was read: the balance after paying `amount`.
pub fn check_purchase(wallet: &Wallet, amount: i64) -> (r: Result<i64, EconomyError>)
    ensures
        amount <= 0 ==> (r matches Err(EconomyError::StoreError(m)) && m@ == non_positive_text()),
        amount > 0 && wallet.balance < amount ==> (r matches Err(EconomyError::InsufficientFunds { required, available })
            && required == amount && available == wallet.balance),
        amount > 0 && wallet.balance >= amount ==> r == Ok::<i64, EconomyError>((wallet.balance - amount) as i64),
        r matches Ok(b) ==> 0 <= b < wallet.balance,
{
    if amount <= 0 {
        return Err(EconomyError::StoreError(owned("Amount must be positive")));
    }
    if wallet.balance < amount {
        return Err(EconomyError::InsufficientFunds { required: amount, available: wallet.balance });
    }
    Ok(wallet.balance - amount)
}

/// The transaction recorded for a purchase: the amount paid, negated.
pub fn purchase_transaction(user_id: u64, guild_id: u64, amount: i64, reason: String, now: i64) -> (t: Transaction)
    requires
        amount > 0,
    ensures
        t.user_id == user_id,
        t.guild_id == guild_id,
        t.amount == -amount,
        t.reason@ == reason@,
        t.timestamp == now,
{
    Transaction { user_id, guild_id, amount: -amount, reason, timestamp: now }
}

/// The reason recorded for buying an item: `Purchased <name>`.
pub fn purchase_reason(item: &ShopItem) -> (s: String)
    ensures
        s@ == "Purchased "@ + item.name@,
{
    let mut s = owned("Purchased ");
    push_str(&mut s, item.name);
    s
}

/// A transaction line of the wallet view: `+12 🪙 — reason` (no sign shown for negatives
/// beyond the minus), the amount grouped in thousands.
pub open spec fn transaction_line(amount: i64, reason: Seq<char>) -> Seq<char> {
    (if amount >= 0 { "+"@ } else { Seq::empty() }) + crate::text::with_thousands(amount as int) + " 🪙 — "@ + reason
}

pub fn format_transaction(t: &Transaction) -> (s: String)
    ensures
        s@ == transaction_line(t.amount, t.reason@),
{
    let mut s = if t.amount >= 0 { owned("+") } else { String::new() };
    let n = crate::text::format_number(t.amount);
    push_str(&mut s, n.as_str());
    push_str(&mut s, " 🪙 — ");
    push_str(&mut s, t.reason.as_str());
    s
}

// ---------------------------------------------------------------------------
// What the economy commands show
// ---------------------------------------------------------------------------

/// The transactions field: one line per transaction, or a note when there are none.
pub open spec fn transactions_text(ts: Seq<Transaction>) -> Seq<char> {
    if ts.len() == 0 {
        "No transactions yet"@
    } else {
        crate::text::joined(ts.map_values(|t: Transaction| transaction_line(t.amount, t.reason@)), "\n"@)
    }
}

pub fn transactions_field(ts: &Vec<Transaction>) -> (s: String)
    ensures
        s@ == transactions_text(ts@),
{
    if ts.len() == 0 {
        return owned("No transactions yet");
    }
    let mut lines: Vec<String> = Vec::new();
    let mut i: usize = 0;
    while i < ts.len()
        invariant
            i <= ts.len(),
            crate::text::strings_seq(lines@) == ts@.take(i as int).map_values(
                |t: Transaction| transaction_line(t.amount, t.reason@),
            ),
        decreases ts.len() - i,
    {
        let ghost before = lines@;
        let l = format_transaction(&ts[i]);
        let ghost lv = l@;
        lines.push(l);
        assert(crate::text::strings_seq(lines@) =~= crate::text::strings_seq(before).push(lv));
        assert(ts@.take(i + 1) =~= ts@.take(i as int).push(ts@[i as int]));
        assert(ts@.take(i + 1).map_values(|t: Transaction| transaction_line(t.amount, t.reason@)) =~= ts@.take(
            i as int,
        ).map_values(|t: Transaction| transaction_line(t.amount, t.reason@)).push(lv));
        i = i + 1;
    }
    assert(ts@.take(ts@.len() as int) =~= ts@);
    crate::text::join_strings(&lines, "\n")
}

/// The balance field: `🪙 **N GreyCoins**`.
pub fn balance_text(balance: i64) -> (s: String)
    ensures
        s@ == "🪙 **"@ + crate::text::with_thousands(balance as int) + " GreyCoins**"@,
{
    let mut s = owned("🪙 **");
    let n = crate::text::format_number(balance);
    push_str(&mut s, n.as_str());
    push_str(&mut s, " GreyCoins**");
    s
}

/// The total-earned field: `🪙 N`.
pub fn earned_text(total: i64) -> (s: String)
    ensures
        s@ == "🪙 "@ + crate::text::with_thousands(total as int),
{
    let mut s = owned("🪙 ");
    let n = crate::text::format_number(total);
    push_str(&mut s, n.as_str());
    s
}

/// The shop field of an item: price, description, and how to buy it.
pub open spec fn shop_field_text(item: ShopItem) -> Seq<char> {
    item.emoji@ + " **"@ + crate::text::with_thousands(item.price as int) + "** GreyCoins\n"@ + item.description@
        + "\n\n💰 Use `/shop buy "@ + item_key(item.id) + "` to purchase"@
}

pub fn shop_field(item: &ShopItem) -> (s: String)
    ensures
        s@ == shop_field_text(*item),
{
    let mut s = owned(item.emoji);
    push_str(&mut s, " **");
    let n = crate::text::format_number(item.price);
    push_str(&mut s, n.as_str());
    push_str(&mut s, "** GreyCoins\n");
    push_str(&mut s, item.description);
    push_str(&mut s, "\n\n💰 Use `/shop buy ");
    push_str(&mut s, item.id.as_str());
    push_str(&mut s, "` to purchase");
    s
}

/// The reply when coins are short.
pub fn insufficient_text(price: i64, balance: i64) -> (s: String)
    ensures
        s@ == "You need **"@ + crate::text::with_thousands(price as int) + "** GreyCoins but only have **"@
            + crate::text::with_thousands(balance as int) + "**.\n\n💡 Use `/daily` to earn more coins!"@,
{
    let mut s = owned("You need **");
    let p = crate::text::format_number(price);
    push_str(&mut s, p.as_str());
    push_str(&mut s, "** GreyCoins but only have **");
    let b = crate::text::format_number(balance);
    push_str(&mut s, b.as_str());
    push_str(&mut s, "**.\n\n💡 Use `/daily` to earn more coins!");
    s
}

/// The reply after a purchase.
pub fn purchase_text(item: &ShopItem, new_balance: i64) -> (s: String)
    ensures
        s@ == item.emoji@ + " **"@ + item.name@ + "** purchased for **"@ + crate::text::with_thousands(item.price as int)
            + "** GreyCoins!\n\n💰 New balance: **"@ + crate::text::with_thousands(new_balance as int) + "** GreyCoins"@,
{
    let mut s = owned(item.emoji);
    push_str(&mut s, " **");
    push_str(&mut s, item.name);
    push_str(&mut s, "** purchased for **");
    let p = crate::text::format_number(item.price);
    push_str(&mut s, p.as_str());
    push_str(&mut s, "** GreyCoins!\n\n💰 New balance: **");
    let b = crate::text::format_number(new_balance);
    push_str(&mut s, b.as_str());
    push_str(&mut s, "** GreyCoins");
    s
}

/// How many of each item a member holds, items in order of first appearance.
pub open spec fn item_counts(items: Seq<ItemId>) -> Seq<(ItemId, nat)>
    decreases items.len(),
{
    if items.len() == 0 {
        Seq::empty()
    } else {
        count_one(item_counts(items.drop_last()), items.last())
    }
}

pub open spec fn count_one(counts: Seq<(ItemId, nat)>, id: ItemId) -> Seq<(ItemId, nat)>
    decreases counts.len(),
{
    if counts.len() == 0 {
        seq![(id, 1nat)]
    } else if counts[0].0 == id {
        counts.update(0, (id, counts[0].1 + 1))
    } else {
        seq![counts[0]] + count_one(counts.drop_first(), id)
    }
}

/// The number of items all the counts stand for.
pub open spec fn counts_total(counts: Seq<(ItemId, nat)>) -> nat
    decreases counts.len(),
{
    if counts.len() == 0 {
        0
    } else {
        counts[0].1 + counts_total(counts.drop_first())
    }
}

proof fn lemma_count_one(counts: Seq<(ItemId, nat)>, id: ItemId)
    ensures
        counts_total(count_one(counts, id)) == counts_total(counts) + 1,
        (exists|j: int| 0 <= j < counts.len() && counts[j].0 == id) ==> count_one(counts, id).len() == counts.len(),
        (forall|j: int| 0 <= j < counts.len() ==> counts[j].0 != id) ==> count_one(counts, id) == counts.push((id, 1nat)),
        forall|j: int| 0 <= j < count_one(counts, id).len() ==> (#[trigger] count_one(counts, id)[j]).0 == id
            || exists|m: int| 0 <= m < counts.len() && counts[m].0 == count_one(counts, id)[j].0,
    decreases counts.len(),
{
    if counts.len() == 0 {
        let one = seq![(id, 1nat)];
        assert(one.drop_first() =~= Seq::<(ItemId, nat)>::empty());
        assert(counts_total(one.drop_first()) == 0);
        assert(one =~= counts.push((id, 1nat)));
    } else if counts[0].0 == id {
        let u = counts.update(0, (id, counts[0].1 + 1));
        assert(u.drop_first() =~= counts.drop_first());
    } else {
        let rest = counts.drop_first();
        lemma_count_one(rest, id);
        let r = count_one(rest, id);
        assert((seq![counts[0]] + r).drop_first() =~= r);
        assert((seq![counts[0]] + r)[0] == counts[0]);
        if exists|j: int| 0 <= j < counts.len() && counts[j].0 == id {
            let j = choose|j: int| 0 <= j < counts.len() && counts[j].0 == id;
            assert(rest[j - 1].0 == id);
        }
        if forall|j: int| 0 <= j < counts.len() ==> counts[j].0 != id {
            assert forall|j: int| 0 <= j < rest.len() implies rest[j].0 != id by {
                assert(rest[j] == counts[j + 1]);
            }
            assert(seq![counts[0]] + rest.push((id, 1nat)) =~= counts.push((id, 1nat)));
        }
        assert forall|j: int| 0 <= j < count_one(counts, id).len() implies (#[trigger] count_one(counts, id)[j]).0 == id
            || exists|m: int| 0 <= m < counts.len() && counts[m].0 == count_one(counts, id)[j].0 by {
            if j == 0 {
                assert(counts[0].0 == count_one(counts, id)[0].0);
            } else {
                assert(count_one(counts, id)[j] == r[j - 1]);
                if r[j - 1].0 != id {
                    let m = choose|m: int| 0 <= m < rest.len() && rest[m].0 == r[j - 1].0;
                    assert(counts[m + 1] == rest[m]);
                }
            }
        }
    }
}

/// The inventory counts account for every item held, once: they add up to the number of
/// items, and no item appears in two counts.
pub proof fn lemma_item_counts(items: Seq<ItemId>)
    ensures
        counts_total(item_counts(items)) == items.len(),
        forall|a: int, b: int| 0 <= a < b < item_counts(items).len() ==> item_counts(items)[a].0 != item_counts(items)[b].0,
    decreases items.len(),
{
    if items.len() > 0 {
        lemma_item_counts(items.drop_last());
        let c = item_counts(items.drop_last());
        let id = items.last();
        lemma_count_one(c, id);
        lemma_count_one_keeps_keys(c, id);
    }
}

proof fn lemma_count_one_keeps_keys(counts: Seq<(ItemId, nat)>, id: ItemId)
    requires
        forall|a: int, b: int| 0 <= a < b < counts.len() ==> counts[a].0 != counts[b].0,
    ensures
        forall|a: int, b: int| 0 <= a < b < count_one(counts, id).len() ==> count_one(counts, id)[a].0 != count_one(
            counts,
            id,
        )[b].0,
    decreases counts.len(),
{
    if counts.len() > 0 {
        if counts[0].0 != id {
            let rest = counts.drop_first();
            assert forall|a: int, b: int| 0 <= a < b < rest.len() implies rest[a].0 != rest[b].0 by {
                assert(rest[a] == counts[a + 1] && rest[b] == counts[b + 1]);
            }
            lemma_count_one_keeps_keys(rest, id);
            lemma_count_one(rest, id);
            let r = count_one(rest, id);
            let whole = seq![counts[0]] + r;
            assert forall|a: int, b: int| 0 <= a < b < whole.len() implies whole[a].0 != whole[b].0 by {
                if a == 0 {
                    assert(whole[b] == r[b - 1]);
                    if r[b - 1].0 != id {
                        let m = choose|m: int| 0 <= m < rest.len() && rest[m].0 == r[b - 1].0;
                        assert(rest[m] == counts[m + 1]);
                    }
                } else {
                    assert(whole[a] == r[a - 1] && whole[b] == r[b - 1]);
                }
            }
        }
    }
}

pub open spec fn counts_view(v: Seq<(ItemId, u64)>) -> Seq<(ItemId, nat)> {
    v.map_values(|p: (ItemId, u64)| (p.0, p.1 as nat))
}

fn count_item(v: &mut Vec<(ItemId, u64)>, id: ItemId, bound: u64)
    requires
        bound >= 1,
        forall|j: int| 0 <= j < old(v)@.len() ==> old(v)@[j].1 < bound,
    ensures
        counts_view(final(v)@) == count_one(counts_view(old(v)@), id),
        forall|j: int| 0 <= j < final(v)@.len() ==> final(v)@[j].1 <= bound,
{
    let ghost s = counts_view(v@);
    let mut i: usize = 0;
    assert(s.skip(0) =~= s);
    assert(s.take(0) + count_one(s.skip(0), id) =~= count_one(s, id));
    while i < v.len()
        invariant
            s == counts_view(old(v)@),
            v@ == old(v)@,
            i <= v.len(),
            forall|j: int| 0 <= j < old(v)@.len() ==> old(v)@[j].1 < bound,
            count_one(s, id) == s.take(i as int) + count_one(s.skip(i as int), id),
        decreases v.len() - i,
    {
        assert(s.skip(i as int)[0] == (v@[i as int].0, v@[i as int].1 as nat));
        assert(s.skip(i as int).drop_first() =~= s.skip(i + 1));
        if v[i].0 == id {
            let c = v[i].1 + 1;
            v.set(i, (id, c));
            assert(counts_view(v@) =~= s.update(i as int, (id, s[i as int].1 + 1)));
            assert(s.take(i as int) + s.skip(i as int).update(0, (id, s[i as int].1 + 1)) =~= s.update(
                i as int,
                (id, s[i as int].1 + 1),
            ));
            return;
        }
        assert(s.take(i + 1) =~= s.take(i as int).push(s[i as int]));
        assert(s.take(i as int) + (seq![s[i as int]] + count_one(s.skip(i + 1), id)) =~= s.take(i + 1) + count_one(
            s.skip(i + 1),
            id,
        ));
        i = i + 1;
    }
    assert(s.skip(i as int).len() == 0);
    assert(s.take(i as int) =~= s);
    v.push((id, 1));
    assert(counts_view(v@) =~= s.push((id, 1nat)));
}

/// Counts a member's items.
pub fn count_items(items: &Vec<ItemId>) -> (r: Vec<(ItemId, u64)>)
    ensures
        counts_view(r@) == item_counts(items@),
{
    let mut r: Vec<(ItemId, u64)> = Vec::new();
    let mut i: usize = 0;
    while i < items.len()
        invariant
            i <= items.len(),
            counts_view(r@) == item_counts(items@.take(i as int)),
            forall|j: int| 0 <= j < r@.len() ==> r@[j].1 <= i,
        decreases items.len() - i,
    {
        assert(items@.take(i + 1).drop_last() =~= items@.take(i as int));
        assert(items@.take(i + 1).last() == items@[i as int]);
        count_item(&mut r, items[i], (i + 1) as u64);
        i = i + 1;
    }
    assert(items@.take(items@.len() as int) =~= items@);
    r
}

/// The inventory field of an item: quantity and description.
pub fn inventory_field(item: &ShopItem, count: u64) -> (s: String)
    ensures
        s@ == item.emoji@ + " **Quantity:** "@ + decimal(count as nat) + "\n"@ + item.description@,
{
    let mut s = owned(item.emoji);
    push_str(&mut s, " **Quantity:** ");
    crate::text::push_decimal(&mut s, count);
    push_str(&mut s, "\n");
    push_str(&mut s, item.description);
    s
}

} // verus!
