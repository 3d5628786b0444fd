use discord_bot::economy::{
    award_transaction, balance_text, check_amount, check_purchase, count_items, decide_daily, format_transaction,
    inventory_field, matching_items, next_daily_time, purchase_reason, purchase_text, purchase_transaction, roll_message_reward, shop_field,
    transactions_field, DailyDecision, EconomyConfig, EconomyError, ItemId, ShopItem, Transaction, Wallet,
};

fn wallet(balance: i64, last_daily: Option<i64>) -> Wallet {
    Wallet { user_id: 1, guild_id: 1, balance, last_daily, total_earned: balance }
}

#[test]
fn test_item_id_conversion() {
    let id = ItemId::DailyStreakSaver;
    assert_eq!(id.as_str(), "daily_streak_saver");
    assert_eq!(ItemId::from_str("daily_streak_saver"), Some(id));
}

#[test]
fn unknown_item_id_is_rejected() {
    assert_eq!(ItemId::from_str("Daily_Streak_Saver"), None);
    assert_eq!(ItemId::from_str(""), None);
}

#[test]
fn test_shop_item_metadata() {
    let item = ShopItem::get(&ItemId::DailyStreakSaver);
    assert_eq!(item.name, "Daily Streak Saver");
    assert_eq!(item.price, 100);
    assert_eq!(item.emoji, "🛡️");
}

#[test]
fn test_all_items() {
    let items = ShopItem::all();
    assert_eq!(items.len(), 1);
    assert_eq!(items[0].id, ItemId::DailyStreakSaver);
}

#[test]
fn autocomplete_matches_key_or_name_ignoring_case() {
    assert_eq!(matching_items("STREAK"), vec!["daily_streak_saver".to_string()]);
    assert_eq!(matching_items("saver"), vec!["daily_streak_saver".to_string()]);
    assert_eq!(matching_items(""), vec!["daily_streak_saver".to_string()]);
    assert!(matching_items("potion").is_empty());
}

#[test]
fn test_daily_claim() {
    let config = EconomyConfig::default();
    let now: i64 = 1_700_000_000_000;
    // First claim succeeds with the daily reward.
    let first = decide_daily(&wallet(0, None), now, &config);
    match first {
        DailyDecision::Claim { amount, next_claim_time } => {
            assert_eq!(amount, 10);
            assert_eq!(next_claim_time, now + 24 * 3_600_000);
        },
        DailyDecision::Cooldown => panic!("first claim must succeed"),
    }
    // The claim sets the wallet's last claim; claiming again right away is refused.
    let second = decide_daily(&wallet(10, Some(now)), now, &config);
    assert!(matches!(second, DailyDecision::Cooldown));
}

#[test]
fn daily_reopens_after_cooldown() {
    let config = EconomyConfig::default();
    let last: i64 = 1_000_000;
    let w = wallet(10, Some(last));
    assert!(matches!(decide_daily(&w, last + 24 * 3_600_000 - 1, &config), DailyDecision::Cooldown));
    assert!(matches!(decide_daily(&w, last + 24 * 3_600_000, &config), DailyDecision::Claim { .. }));
    assert_eq!(next_daily_time(&w, &config), Some(last + 24 * 3_600_000));
    assert_eq!(next_daily_time(&wallet(0, None), &config), None);
}

#[test]
fn non_positive_amounts_are_rejected() {
    assert!(check_amount(1).is_ok());
    let err = check_amount(0).unwrap_err();
    assert_eq!(err.message(), "Store error: Amount must be positive");
    assert!(check_amount(-5).is_err());
}

#[test]
fn purchase_checks_balance() {
    assert_eq!(check_purchase(&wallet(150, None), 100).unwrap(), 50);
    assert_eq!(check_purchase(&wallet(100, None), 100).unwrap(), 0);
    match check_purchase(&wallet(40, None), 100) {
        Err(EconomyError::InsufficientFunds { required, available }) => {
            assert_eq!(required, 100);
            assert_eq!(available, 40);
        },
        other => panic!("unexpected {:?}", other),
    }
    assert!(matches!(check_purchase(&wallet(40, None), 0), Err(EconomyError::StoreError(_))));
}

#[test]
fn insufficient_funds_message() {
    let e = EconomyError::InsufficientFunds { required: 100, available: 40 };
    assert_eq!(e.message(), "Insufficient funds: need 100 coins, but only have 40");
}

#[test]
fn cooldown_message_shows_utc_time() {
    let e = EconomyError::OnCooldown { available_at: 0 };
    assert_eq!(e.message(), "On cooldown until 1970-01-01 00:00:00 UTC");
}

#[test]
fn transactions_record_signed_amounts() {
    let award = award_transaction(1, 2, 50, "Test reward".to_string(), 7);
    assert_eq!(award.amount, 50);
    assert_eq!(award.reason, "Test reward");
    assert_eq!(award.timestamp, 7);
    let item = ShopItem::get(&ItemId::DailyStreakSaver);
    let purchase = purchase_transaction(1, 2, item.price, purchase_reason(&item), 8);
    assert_eq!(purchase.amount, -100);
    assert_eq!(purchase.reason, "Purchased Daily Streak Saver");
}

#[test]
fn transaction_lines() {
    let t = Transaction { user_id: 1, guild_id: 1, amount: 1500, reason: "Daily".to_string(), timestamp: 0 };
    assert_eq!(format_transaction(&t), "+1,500 🪙 — Daily");
    let u = Transaction { user_id: 1, guild_id: 1, amount: -100, reason: "Shop".to_string(), timestamp: 0 };
    assert_eq!(transactions_field(&vec![t, u]), "+1,500 🪙 — Daily\n-100 🪙 — Shop");
    assert_eq!(transactions_field(&vec![]), "No transactions yet");
}

#[test]
fn shop_texts() {
    let item = ShopItem::get(&ItemId::DailyStreakSaver);
    assert_eq!(balance_text(12345), "🪙 **12,345 GreyCoins**");
    assert!(shop_field(&item).ends_with("Use `/shop buy daily_streak_saver` to purchase"));
    assert!(shop_field(&item).starts_with("🛡️ **100** GreyCoins\n"));
    assert_eq!(
        purchase_text(&item, 2500),
        "🛡️ **Daily Streak Saver** purchased for **100** GreyCoins!\n\n💰 New balance: **2,500** GreyCoins"
    );
}

#[test]
fn inventory_counts_each_item_once() {
    let items = vec![ItemId::DailyStreakSaver, ItemId::DailyStreakSaver, ItemId::DailyStreakSaver];
    assert_eq!(count_items(&items), vec![(ItemId::DailyStreakSaver, 3)]);
    assert!(count_items(&vec![]).is_empty());
    let item = ShopItem::get(&ItemId::DailyStreakSaver);
    assert!(inventory_field(&item, 2).contains("2"));
}

#[test]
fn message_rewards_stay_within_the_configured_range() {
    let config = EconomyConfig::default();
    for _ in 0..200 {
        let r = roll_message_reward(&config);
        assert!((1..=5).contains(&r));
    }
    let fixed = EconomyConfig { message_reward_min: -3, message_reward_max: -3, ..EconomyConfig::default() };
    assert_eq!(roll_message_reward(&fixed), -3);
}
