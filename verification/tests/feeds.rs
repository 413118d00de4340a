//! The book on whole feeds.
use orderbook::{Event, Level, MidPrice, Orderbook};

/// How many price or size units one makes.
const ONE: f64 = 100_000_000.0;

fn units(value: f64) -> u64 {
    (value * ONE).round() as u64
}

fn in_full(mid: MidPrice) -> f64 {
    (mid.whole as f64 + mid.num as f64 / mid.den as f64) / ONE
}

#[test]
fn process_lvl2_bids() {
    let mut ob = Orderbook::new(units(0.01));

    let event = Event {
        timestamp: 0,
        seq: 0,
        is_trade: false,
        is_buy: true,
        price: units(16.0),
        size: units(1.0),
    };

    ob.process(event);

    assert_eq!(
        ob.top_bids(5),
        [Level {
            price: units(16.0),
            size: units(1.0),
            timestamp: 0,
            seq: 0
        },]
    );

    let event = Event {
        timestamp: 0,
        seq: 0,
        is_trade: false,
        is_buy: true,
        price: units(7.0),
        size: units(1.0),
    };
    ob.process(event);

    assert_eq!(
        ob.top_bids(5),
        [
            Level {
                price: units(16.0),
                size: units(1.0),
                timestamp: 0,
                seq: 0
            },
            Level {
                price: units(7.0),
                size: units(1.0),
                timestamp: 0,
                seq: 0
            },
        ]
    );

    let event = Event {
        timestamp: 0,
        seq: 0,
        is_trade: false,
        is_buy: true,
        price: units(10.0),
        size: units(1.0),
    };
    ob.process(event);

    assert_eq!(
        ob.top_bids(5),
        [
            Level {
                price: units(16.0),
                size: units(1.0),
                timestamp: 0,
                seq: 0
            },
            Level {
                price: units(10.0),
                size: units(1.0),
                timestamp: 0,
                seq: 0
            },
            Level {
                price: units(7.0),
                size: units(1.0),
                timestamp: 0,
                seq: 0
            },
        ]
    );

    let event = Event {
        timestamp: 0,
        seq: 0,
        is_trade: false,
        is_buy: true,
        price: units(8.0),
        size: units(1.0),
    };
    ob.process(event);

    assert_eq!(
        ob.top_bids(5),
        [
            Level {
                price: units(16.0),
                size: units(1.0),
                timestamp: 0,
                seq: 0
            },
            Level {
                price: units(10.0),
                size: units(1.0),
                timestamp: 0,
                seq: 0
            },
            Level {
                price: units(8.0),
                size: units(1.0),
                timestamp: 0,
                seq: 0
            },
            Level {
                price: units(7.0),
                size: units(1.0),
                timestamp: 0,
                seq: 0
            },
        ]
    );

    // Update price 8.0 with a newer seq to change size from 1.0 to 2.0
    let event = Event {
        timestamp: 0,
        seq: 1,
        is_trade: false,
        is_buy: true,
        price: units(8.0),
        size: units(2.0),
    };
    ob.process(event);

    assert_eq!(
        ob.top_bids(5),
        [
            Level {
                price: units(16.0),
                size: units(1.0),
                timestamp: 0,
                seq: 0
            },
            Level {
                price: units(10.0),
                size: units(1.0),
                timestamp: 0,
                seq: 0
            },
            Level {
                price: units(8.0),
                size: units(2.0),
                timestamp: 0,
                seq: 1
            },
            Level {
                price: units(7.0),
                size: units(1.0),
                timestamp: 0,
                seq: 0
            },
        ]
    );

    let event = Event {
        timestamp: 0,
        seq: 0,
        is_trade: false,
        is_buy: true,
        price: units(12.0),
        size: units(1.0),
    };
    ob.process(event);

    assert_eq!(
        ob.top_bids(5),
        [
            Level {
                price: units(16.0),
                size: units(1.0),
                timestamp: 0,
                seq: 0
            },
            Level {
                price: units(12.0),
                size: units(1.0),
                timestamp: 0,
                seq: 0
            },
            Level {
                price: units(10.0),
                size: units(1.0),
                timestamp: 0,
                seq: 0
            },
            Level {
                price: units(8.0),
                size: units(2.0),
                timestamp: 0,
                seq: 0
            },
            Level {
                price: units(7.0),
                size: units(1.0),
                timestamp: 0,
                seq: 0
            },
        ]
    );

    let event = Event {
        timestamp: 0,
        seq: 0,
        is_trade: false,
        is_buy: true,
        price: units(21.0),
        size: units(1.0),
    };
    ob.process(event);

    assert_eq!(
        ob.top_bids(5),
        [
            Level {
                price: units(21.0),
                size: units(1.0),
                timestamp: 0,
                seq: 0
            },
            Level {
                price: units(16.0),
                size: units(1.0),
                timestamp: 0,
                seq: 0
            },
            Level {
                price: units(12.0),
                size: units(1.0),
                timestamp: 0,
                seq: 0
            },
            Level {
                price: units(10.0),
                size: units(1.0),
                timestamp: 0,
                seq: 0
            },
            Level {
                price: units(8.0),
                size: units(2.0),
                timestamp: 0,
                seq: 1
            },
        ]
    );

    // Delete price 8.0 with a newer seq
    let event = Event {
        timestamp: 0,
        seq: 2,
        is_trade: false,
        is_buy: true,
        price: units(8.0),
        size: units(0.0),
    };
    ob.process(event);

    assert_eq!(
        ob.top_bids(5),
        [
            Level {
                price: units(21.0),
                size: units(1.0),
                timestamp: 0,
                seq: 0
            },
            Level {
                price: units(16.0),
                size: units(1.0),
                timestamp: 0,
                seq: 0
            },
            Level {
                price: units(12.0),
                size: units(1.0),
                timestamp: 0,
                seq: 0
            },
            Level {
                price: units(10.0),
                size: units(1.0),
                timestamp: 0,
                seq: 0
            },
            Level {
                price: units(7.0),
                size: units(1.0),
                timestamp: 0,
                seq: 0
            },
        ]
    );

    // Re-add price 8.0 with a newer seq
    let event = Event {
        timestamp: 0,
        seq: 3,
        is_trade: false,
        is_buy: true,
        price: units(8.0),
        size: units(10.0),
    };
    ob.process(event);

    assert_eq!(
        ob.top_bids(5),
        [
            Level {
                price: units(21.0),
                size: units(1.0),
                timestamp: 0,
                seq: 0
            },
            Level {
                price: units(16.0),
                size: units(1.0),
                timestamp: 0,
                seq: 0
            },
            Level {
                price: units(12.0),
                size: units(1.0),
                timestamp: 0,
                seq: 0
            },
            Level {
                price: units(10.0),
                size: units(1.0),
                timestamp: 0,
                seq: 0
            },
            Level {
                price: units(8.0),
                size: units(10.0),
                timestamp: 0,
                seq: 3
            },
        ]
    );

    let event = Event {
        timestamp: 0,
        seq: 0,
        is_trade: false,
        is_buy: true,
        price: units(21.0),
        size: units(0.0),
    };
    ob.process(event);

    assert_eq!(
        ob.top_bids(5),
        [
            Level {
                price: units(16.0),
                size: units(1.0),
                timestamp: 0,
                seq: 0
            },
            Level {
                price: units(12.0),
                size: units(1.0),
                timestamp: 0,
                seq: 0
            },
            Level {
                price: units(10.0),
                size: units(1.0),
                timestamp: 0,
                seq: 0
            },
            Level {
                price: units(8.0),
                size: units(10.0),
                timestamp: 0,
                seq: 0
            },
            Level {
                price: units(7.0),
                size: units(1.0),
                timestamp: 0,
                seq: 0
            },
        ]
    );
}

#[test]
fn process_lvl2_asks() {
    let mut ob = Orderbook::new(units(0.01));

    let event = Event {
        timestamp: 0,
        seq: 0,
        is_trade: false,
        is_buy: false,
        price: units(16.0),
        size: units(1.0),
    };
    ob.process(event);

    assert_eq!(
        ob.top_asks(5),
        [Level {
            price: units(16.0),
            size: units(1.0),
            timestamp: 0,
            seq: 0
        },]
    );

    let event = Event {
        timestamp: 0,
        seq: 0,
        is_trade: false,
        is_buy: false,
        price: units(7.0),
        size: units(1.0),
    };
    ob.process(event);

    assert_eq!(
        ob.top_asks(5),
        [
            Level {
                price: units(7.0),
                size: units(1.0),
                timestamp: 0,
                seq: 0
            },
            Level {
                price: units(16.0),
                size: units(1.0),
                timestamp: 0,
                seq: 0
            },
        ]
    );

    let event = Event {
        timestamp: 0,
        seq: 0,
        is_trade: false,
        is_buy: false,
        price: units(10.0),
        size: units(1.0),
    };
    ob.process(event);

    assert_eq!(
        ob.top_asks(5),
        [
            Level {
                price: units(7.0),
                size: units(1.0),
                timestamp: 0,
                seq: 0
            },
            Level {
                price: units(10.0),
                size: units(1.0),
                timestamp: 0,
                seq: 0
            },
            Level {
                price: units(16.0),
                size: units(1.0),
                timestamp: 0,
                seq: 0
            },
        ]
    );

    let event = Event {
        timestamp: 0,
        seq: 0,
        is_trade: false,
        is_buy: false,
        price: units(6.0),
        size: units(1.0),
    };
    ob.process(event);

    assert_eq!(
        ob.top_asks(5),
        [
            Level {
                price: units(6.0),
                size: units(1.0),
                timestamp: 0,
                seq: 0
            },
            Level {
                price: units(7.0),
                size: units(1.0),
                timestamp: 0,
                seq: 0
            },
            Level {
                price: units(10.0),
                size: units(1.0),
                timestamp: 0,
                seq: 0
            },
            Level {
                price: units(16.0),
                size: units(1.0),
                timestamp: 0,
                seq: 0
            },
        ]
    );

    let event = Event {
        timestamp: 0,
        seq: 0,
        is_trade: false,
        is_buy: false,
        price: units(8.0),
        size: units(2.0),
    };
    ob.process(event);

    assert_eq!(
        ob.top_asks(5),
        [
            Level {
                price: units(6.0),
                size: units(1.0),
                timestamp: 0,
                seq: 0
            },
            Level {
                price: units(7.0),
                size: units(1.0),
                timestamp: 0,
                seq: 0
            },
            Level {
                price: units(8.0),
                size: units(2.0),
                timestamp: 0,
                seq: 0
            },
            Level {
                price: units(10.0),
                size: units(1.0),
                timestamp: 0,
                seq: 0
            },
            Level {
                price: units(16.0),
                size: units(1.0),
                timestamp: 0,
                seq: 0
            },
        ]
    );

    let event = Event {
        timestamp: 0,
        seq: 0,
        is_trade: false,
        is_buy: false,
        price: units(50.0),
        size: units(1.0),
    };
    ob.process(event);

    assert_eq!(
        ob.top_asks(5),
        [
            Level {
                price: units(6.0),
                size: units(1.0),
                timestamp: 0,
                seq: 0
            },
            Level {
                price: units(7.0),
                size: units(1.0),
                timestamp: 0,
                seq: 0
            },
            Level {
                price: units(8.0),
                size: units(2.0),
                timestamp: 0,
                seq: 0
            },
            Level {
                price: units(10.0),
                size: units(1.0),
                timestamp: 0,
                seq: 0
            },
            Level {
                price: units(16.0),
                size: units(1.0),
                timestamp: 0,
                seq: 0
            },
        ]
    );

    let event = Event {
        timestamp: 0,
        seq: 0,
        is_trade: false,
        is_buy: false,
        price: units(6.0),
        size: units(0.0),
    };
    ob.process(event);

    assert_eq!(
        ob.top_asks(5),
        [
            Level {
                price: units(7.0),
                size: units(1.0),
                timestamp: 0,
                seq: 0
            },
            Level {
                price: units(8.0),
                size: units(2.0),
                timestamp: 0,
                seq: 0
            },
            Level {
                price: units(10.0),
                size: units(1.0),
                timestamp: 0,
                seq: 0
            },
            Level {
                price: units(16.0),
                size: units(1.0),
                timestamp: 0,
                seq: 0
            },
            Level {
                price: units(50.0),
                size: units(1.0),
                timestamp: 0,
                seq: 0
            },
        ]
    );

    let event = Event {
        timestamp: 0,
        seq: 0,
        is_trade: false,
        is_buy: false,
        price: units(8.0),
        size: units(0.0),
    };
    ob.process(event);

    assert_eq!(
        ob.top_asks(5),
        [
            Level {
                price: units(7.0),
                size: units(1.0),
                timestamp: 0,
                seq: 0
            },
            Level {
                price: units(10.0),
                size: units(1.0),
                timestamp: 0,
                seq: 0
            },
            Level {
                price: units(16.0),
                size: units(1.0),
                timestamp: 0,
                seq: 0
            },
            Level {
                price: units(50.0),
                size: units(1.0),
                timestamp: 0,
                seq: 0
            },
        ]
    );
}

#[test]
fn process_all_asks() {
    let mut ob = Orderbook::new(units(0.01));

    let event = Event {
        timestamp: 0,
        seq: 0,
        is_trade: false,
        is_buy: false,
        price: units(11.0),
        size: units(1.0),
    };
    ob.process(event);

    let event = Event {
        timestamp: 0,
        seq: 0,
        is_trade: false,
        is_buy: false,
        price: units(10.0),
        size: units(1.0),
    };
    ob.process(event);

    let event = Event {
        timestamp: 0,
        seq: 0,
        is_trade: false,
        is_buy: false,
        price: units(9.0),
        size: units(1.0),
    };
    ob.process(event);

    let event = Event {
        timestamp: 0,
        seq: 0,
        is_trade: true,
        is_buy: false,
        price: units(9.0),
        size: units(0.5),
    };
    ob.process(event);

    assert_eq!(
        ob.top_asks(3),
        [
            Level {
                price: units(9.0),
                size: units(0.5),
                timestamp: 0,
                seq: 0
            },
            Level {
                price: units(10.0),
                size: units(1.0),
                timestamp: 0,
                seq: 0
            },
            Level {
                price: units(11.0),
                size: units(1.0),
                timestamp: 0,
                seq: 0
            },
        ]
    );

    let event = Event {
        timestamp: 0,
        seq: 0,
        is_trade: true,
        is_buy: false,
        price: units(9.0),
        size: units(0.9),
    };
    ob.process(event);

    assert_eq!(
        ob.top_asks(3),
        [
            Level {
                price: units(10.0),
                size: units(1.0),
                timestamp: 0,
                seq: 0
            },
            Level {
                price: units(11.0),
                size: units(1.0),
                timestamp: 0,
                seq: 0
            },
        ]
    );
}

#[test]
fn old_event() {
    let mut ob = Orderbook::new(units(0.01));

    let event = Event {
        timestamp: 0,
        seq: 0,
        is_trade: false,
        is_buy: false,
        price: units(11.0),
        size: units(1.0),
    };
    ob.process(event);

    let event = Event {
        timestamp: 1,
        seq: 1,
        is_trade: false,
        is_buy: false,
        price: units(10.0),
        size: units(1.0),
    };
    ob.process(event);

    // This event at price 9.0 would become new best ask, but has stale seq (0 < 1)
    // so it should be rejected
    let event = Event {
        timestamp: 0,
        seq: 0,
        is_trade: false,
        is_buy: false,
        price: units(9.0),
        size: units(1.0),
    };
    ob.process(event);

    let event = Event {
        timestamp: 0,
        seq: 0,
        is_trade: true,
        is_buy: false,
        price: units(8.0),
        size: units(1.0),
    };
    ob.process(event);

    // Best ask should remain 10.0 (stale event at 9.0 was rejected)
    assert_eq!(
        ob.best_ask().unwrap(),
        Level {
            price: units(10.0),
            size: units(1.0),
            timestamp: 1,
            seq: 1
        }
    )
}

#[test]
fn process_stream_bbo() {
    let mut ob = Orderbook::new(units(0.01));

    let event = Event {
        timestamp: 0,
        seq: 0,
        is_trade: false,
        is_buy: true,
        price: units(16.0),
        size: units(1.0),
    };

    ob.process(event);

    let event = Event {
        timestamp: 0,
        seq: 0,
        is_trade: false,
        is_buy: true,
        price: units(20.0),
        size: units(1.0),
    };

    ob.process(event);

    let event = Event {
        timestamp: 0,
        seq: 0,
        is_trade: false,
        is_buy: false,
        price: units(22.0),
        size: units(1.0),
    };

    ob.process(event);

    let event = Event {
        timestamp: 0,
        seq: 0,
        is_trade: false,
        is_buy: false,
        price: units(21.0),
        size: units(1.0),
    };

    let (best_bid, best_ask) = ob.process_stream_bbo(event).unwrap();

    assert_eq!(
        best_bid.unwrap(),
        Level {
            price: units(20.0),
            size: units(1.0),
            timestamp: 0,
            seq: 0
        }
    );

    assert_eq!(
        best_ask.unwrap(),
        Level {
            price: units(21.0),
            size: units(1.0),
            timestamp: 0,
            seq: 0
        }
    );

    let event = Event {
        timestamp: 0,
        seq: 0,
        is_trade: false,
        is_buy: false,
        price: units(23.0),
        size: units(1.0),
    };

    assert_eq!(ob.process_stream_bbo(event), None);
}

#[test]
fn remove_non_existing_level_with_trade() {
    let mut ob = Orderbook::new(units(0.01));

    let event = Event {
        timestamp: 0,
        seq: 0,
        is_trade: false,
        is_buy: true,
        price: units(16.0),
        size: units(1.0),
    };

    ob.process(event);

    let event = Event {
        timestamp: 0,
        seq: 0,
        is_trade: false,
        is_buy: false,
        price: units(20.0),
        size: units(1.0),
    };

    ob.process(event);

    let event = Event {
        timestamp: 0,
        seq: 0,
        is_trade: true,
        is_buy: true,
        price: units(12.0),
        size: units(1.0),
    };

    ob.process(event);

    let event = Event {
        timestamp: 0,
        seq: 0,
        is_trade: true,
        is_buy: false,
        price: units(22.0),
        size: units(1.0),
    };

    ob.process(event);

    assert_eq!(
        ob.best_bid().unwrap(),
        Level {
            price: units(16.0),
            size: units(1.0),
            timestamp: 0,
            seq: 0
        }
    );

    assert_eq!(
        ob.best_ask().unwrap(),
        Level {
            price: units(20.0),
            size: units(1.0),
            timestamp: 0,
            seq: 0
        }
    );
}

#[test]
fn midprice() {
    let mut ob = Orderbook::new(units(0.01));

    let event = Event {
        timestamp: 0,
        seq: 0,
        is_trade: false,
        is_buy: true,
        price: units(16.0),
        size: units(1.0),
    };

    ob.process(event);

    assert_eq!(ob.midprice(), None);

    let event = Event {
        timestamp: 0,
        seq: 0,
        is_trade: false,
        is_buy: false,
        price: units(20.0),
        size: units(1.0),
    };

    ob.process(event);

    let midprice = ob.midprice().unwrap();

    assert_eq!(in_full(midprice), 18.0)
}

#[test]
fn weighted_midprice() {
    let mut ob = Orderbook::new(units(0.01));

    let event = Event {
        timestamp: 0,
        seq: 0,
        is_trade: false,
        is_buy: true,
        price: units(16.0),
        size: units(1.0),
    };

    ob.process(event);

    assert_eq!(ob.weighted_midprice(), None);

    let event = Event {
        timestamp: 0,
        seq: 0,
        is_trade: false,
        is_buy: false,
        price: units(20.0),
        size: units(4.0),
    };

    ob.process(event);

    let weighted_midprice = ob.weighted_midprice().unwrap();

    assert_eq!(in_full(weighted_midprice), 16.8)
}

#[test]
fn test_reject_stale_seq_update() {
    let mut ob = Orderbook::new(units(0.01));

    // Insert level with seq=100
    ob.process(Event {
        timestamp: 1000,
        seq: 100,
        is_trade: false,
        is_buy: true,
        price: units(50.0),
        size: units(10.0),
    });

    // Try to update with seq=50 (stale)
    ob.process(Event {
        timestamp: 2000, // Even newer timestamp
        seq: 50,
        is_trade: false,
        is_buy: true,
        price: units(50.0),
        size: units(20.0),
    });

    // Verify size unchanged (stale update rejected)
    let level = ob.bids.get(&ob.get_price_tick(units(50.0))).unwrap();
    assert_eq!(level.size, units(10.0));
    assert_eq!(level.seq, 100);
}

#[test]
fn test_accept_newer_seq_update() {
    let mut ob = Orderbook::new(units(0.01));

    ob.process(Event {
        timestamp: 1000,
        seq: 100,
        is_trade: false,
        is_buy: true,
        price: units(50.0),
        size: units(10.0),
    });

    ob.process(Event {
        timestamp: 1500,
        seq: 200,
        is_trade: false,
        is_buy: true,
        price: units(50.0),
        size: units(25.0),
    });

    let level = ob.bids.get(&ob.get_price_tick(units(50.0))).unwrap();
    assert_eq!(level.size, units(25.0));
    assert_eq!(level.seq, 200);
}

#[test]
fn test_stale_deletion_rejected() {
    let mut ob = Orderbook::new(units(0.01));

    // Insert level with seq=1000
    ob.process(Event {
        timestamp: 1000,
        seq: 1000,
        is_trade: false,
        is_buy: true,
        price: units(50.0),
        size: units(10.0),
    });

    // Try stale deletion with seq=500
    ob.process(Event {
        timestamp: 2000,
        seq: 500,
        is_trade: false,
        is_buy: true,
        price: units(50.0),
        size: units(0.0),
    });

    // Level should still exist
    assert!(ob.bids.contains_key(&ob.get_price_tick(units(50.0))));
    let level = ob.bids.get(&ob.get_price_tick(units(50.0))).unwrap();
    assert_eq!(level.seq, 1000);
}

#[test]
fn test_fresh_deletion_accepted() {
    let mut ob = Orderbook::new(units(0.01));

    ob.process(Event {
        timestamp: 1000,
        seq: 100,
        is_trade: false,
        is_buy: true,
        price: units(50.0),
        size: units(10.0),
    });

    // Send newer deletion
    ob.process(Event {
        timestamp: 2000,
        seq: 200,
        is_trade: false,
        is_buy: true,
        price: units(50.0),
        size: units(0.0),
    });

    // Level should be removed
    assert!(!ob.bids.contains_key(&ob.get_price_tick(units(50.0))));
}

#[test]
fn test_mixed_seq_multiple_levels() {
    let mut ob = Orderbook::new(units(0.01));

    // Setup three levels
    ob.process(Event {
        timestamp: 1000,
        seq: 100,
        is_trade: false,
        is_buy: true,
        price: units(50.0),
        size: units(10.0),
    });
    ob.process(Event {
        timestamp: 1000,
        seq: 101,
        is_trade: false,
        is_buy: true,
        price: units(49.0),
        size: units(11.0),
    });
    ob.process(Event {
        timestamp: 1000,
        seq: 102,
        is_trade: false,
        is_buy: true,
        price: units(48.0),
        size: units(12.0),
    });

    // Send mixed updates
    ob.process(Event {
        timestamp: 2000,
        seq: 150,
        is_trade: false,
        is_buy: true,
        price: units(50.0),
        size: units(20.0),
    }); // Accept
    ob.process(Event {
        timestamp: 2000,
        seq: 90,
        is_trade: false,
        is_buy: true,
        price: units(49.0),
        size: units(21.0),
    }); // Reject
    ob.process(Event {
        timestamp: 2000,
        seq: 200,
        is_trade: false,
        is_buy: true,
        price: units(48.0),
        size: units(22.0),
    }); // Accept

    // Verify selective updates
    assert_eq!(ob.bids.get(&ob.get_price_tick(units(50.0))).unwrap().size, units(20.0)); // Updated
    assert_eq!(ob.bids.get(&ob.get_price_tick(units(49.0))).unwrap().size, units(11.0)); // Not updated
    assert_eq!(ob.bids.get(&ob.get_price_tick(units(48.0))).unwrap().size, units(22.0)); // Updated
}

#[test]
fn test_reject_equal_seq() {
    let mut ob = Orderbook::new(units(0.01));

    // Insert level with seq=100
    ob.process(Event {
        timestamp: 1000,
        seq: 100,
        is_trade: false,
        is_buy: true,
        price: units(50.0),
        size: units(10.0),
    });

    // Try to update with seq=100 (equal)
    ob.process(Event {
        timestamp: 2000,
        seq: 100,
        is_trade: false,
        is_buy: true,
        price: units(50.0),
        size: units(20.0),
    });

    // Verify size unchanged (equal seq rejected)
    let level = ob.bids.get(&ob.get_price_tick(units(50.0))).unwrap();
    assert_eq!(level.size, units(10.0));
    assert_eq!(level.seq, 100);
}

#[test]
fn test_seq_check_on_asks() {
    let mut ob = Orderbook::new(units(0.01));

    // Insert ask with seq=100
    ob.process(Event {
        timestamp: 1000,
        seq: 100,
        is_trade: false,
        is_buy: false,
        price: units(50.0),
        size: units(10.0),
    });

    // Try stale update
    ob.process(Event {
        timestamp: 2000,
        seq: 50,
        is_trade: false,
        is_buy: false,
        price: units(50.0),
        size: units(20.0),
    });

    // Verify size unchanged
    let level = ob.asks.get(&ob.get_price_tick(units(50.0))).unwrap();
    assert_eq!(level.size, units(10.0));
    assert_eq!(level.seq, 100);
}

#[test]
fn test_stale_deletion_on_asks() {
    let mut ob = Orderbook::new(units(0.01));

    // Insert ask with seq=1000
    ob.process(Event {
        timestamp: 1000,
        seq: 1000,
        is_trade: false,
        is_buy: false,
        price: units(50.0),
        size: units(10.0),
    });

    // Try stale deletion
    ob.process(Event {
        timestamp: 2000,
        seq: 500,
        is_trade: false,
        is_buy: false,
        price: units(50.0),
        size: units(0.0),
    });

    // Level should still exist
    assert!(ob.asks.contains_key(&ob.get_price_tick(units(50.0))));
    let level = ob.asks.get(&ob.get_price_tick(units(50.0))).unwrap();
    assert_eq!(level.seq, 1000);
}
