use game_metrics::factorio::players_online_command;
use game_metrics::factorio::rcon_url;
use game_metrics::parse_player_count;
use game_metrics::text::u16_to_decimal;
use game_metrics::Metrics;

#[test]
fn renders_seven_exactly() {
    let m = Metrics { players_online_count: 7 };
    assert_eq!(m.to_prometheus(), "# TYPE players_online gauge\nplayers_online 7");
}

#[test]
fn rendering_is_deterministic() {
    let m = Metrics { players_online_count: 31337 };
    let first = m.to_prometheus();
    let second = m.to_prometheus();
    assert_eq!(first, second);
}

#[test]
fn renders_zero_and_largest() {
    let zero = Metrics { players_online_count: 0 };
    assert_eq!(zero.to_prometheus(), "# TYPE players_online gauge\nplayers_online 0");
    let big = Metrics { players_online_count: 65535 };
    assert_eq!(big.to_prometheus(), "# TYPE players_online gauge\nplayers_online 65535");
}

#[test]
fn decimal_rendering_is_natural() {
    assert_eq!(u16_to_decimal(0), "0");
    assert_eq!(u16_to_decimal(10), "10");
    assert_eq!(u16_to_decimal(10007), "10007");
    assert_eq!(u16_to_decimal(65535), "65535");
}

#[test]
fn scrape_body_for_reply_of_three() {
    let m = parse_player_count("Online player (3):").unwrap();
    assert_eq!(m.to_prometheus(), "# TYPE players_online gauge\nplayers_online 3");
}

#[test]
fn console_address_renders_port() {
    assert_eq!(rcon_url(27015), "localhost:27015");
    assert_eq!(rcon_url(1), "localhost:1");
}

#[test]
fn command_text_is_fixed() {
    assert_eq!(players_online_command(), "/players online count");
}
