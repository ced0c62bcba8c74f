use arbitrage_bot::arbitrage::{Arbitrage, TradeRecord, Venue};
use arbitrage_bot::price::parse_decimal;
use arbitrage_bot::report::money;

#[test]
fn money_is_written_with_six_decimals() {
    assert_eq!(money(0), "0.000000");
    assert_eq!(money(1), "0.000001");
    assert_eq!(money(-1), "-0.000001");
    assert_eq!(money(1_234_500_000), "1234.500000");
    assert_eq!(money(-196_078_431), "-196.078431");
    assert_eq!(money(999_999), "0.999999");
    assert_eq!(money(1_000_000), "1.000000");
    assert_eq!(money(10_000_000), "10.000000");
    assert_eq!(money(100_000_010), "100.000010");
    assert_eq!(
        money(i128::MAX),
        "170141183460469231731687303715884.105727"
    );
    assert_eq!(
        money(i128::MIN),
        "-170141183460469231731687303715884.105728"
    );
}

#[test]
fn written_prices_are_read_back() {
    for price in [
        0i64, 1, 9, 10, 999_999, 1_000_000, 1_234_500_000, 1_000_000_000_000_000, i64::MAX, -1,
        -999_999, -1_000_000, -196_078_431, i64::MIN,
    ] {
        assert_eq!(parse_decimal(&money(price as i128)), Ok(price));
    }
}

#[test]
fn record_text_names_every_amount() {
    let record = TradeRecord {
        buy_venue: Venue::DyDx,
        sell_venue: Venue::Aevo,
        amount: 1_960_784,
        buy_price: 100_000_000,
        sell_price: 102_000_000,
        buy_cost: 196_078_431,
        sell_cost: 200_000_000,
        profit: 3_921_569,
        total_profit: 3_921_569,
        dydx_balance: 803_921_569,
        aevo_balance: 1_200_000_000,
    };
    assert_eq!(
        record.describe(),
        "Bought 1.960784 BTC from DyDx at price 100.000000, with cost: 196.078431.\n\
         Sold 1.960784 BTC from Aevo at price 102.000000, with cost: 200.000000.\n\
         Profit: 3.921569\n\
         Total profit: 3.921569\n\
         DyDx Balance: 803.921569\n\
         Aevo Balance: 1200.000000\n"
    );
}

#[test]
fn record_text_of_a_booked_trade() {
    let mut engine = Arbitrage::new(100_000_000, 0, 0, 300_000_000);
    let record = engine.simulate_arbitrage(102_000_000, 100_000_000).expect("a trade");
    assert_eq!(
        record.describe(),
        "Bought 2.941176 BTC from Aevo at price 100.000000, with cost: 294.117647.\n\
         Sold 2.941176 BTC from DyDx at price 102.000000, with cost: 300.000000.\n\
         Profit: 5.882353\n\
         Total profit: 5.882353\n\
         DyDx Balance: 400.000000\n\
         Aevo Balance: -294.117647\n"
    );
}
