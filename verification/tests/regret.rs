use dcfr::game::Player;
use dcfr::numeric::FloatOp;
use dcfr::regret::codec::{decode, encode, key_bytes, CodecError};
use dcfr::regret::hash_regret_provider::Fault;
use dcfr::regret::persistent::{next_stored, stored_regret, Fetched, KvRegretHandler, StoreError};
use std::cell::RefCell;
use std::collections::HashMap;
use dcfr::regret::regret_provider::{
    DEFAULT_ALPHA, DEFAULT_BETA, DEFAULT_GAMMA,
};
use dcfr::regret::{
    DirectHandler, HandlerError, HashRegretProvider, RegretConfig, RegretDelta, RegretHandler,
    RegretRequest, RegretSharder, Request, Response,
};

fn fpu(op: FloatOp, a: u32, b: u32) -> u32 {
    let x = f32::from_bits(a);
    let y = f32::from_bits(b);
    let r = match op {
        FloatOp::Add => x + y,
        FloatOp::Sub => x - y,
        FloatOp::Mul => x * y,
        FloatOp::Div => x / y,
        FloatOp::Pow => x.powf(y),
        FloatOp::FromCount(n) => n as f32,
        FloatOp::FromInt(i) => i as f32,
    };
    r.to_bits()
}

fn bits(values: &[f32]) -> Vec<u32> {
    values.iter().map(|v| v.to_bits()).collect()
}

fn floats(values: &[u32]) -> Vec<f32> {
    values.iter().map(|v| f32::from_bits(*v)).collect()
}

fn dcfr_config(is_strategy: bool) -> RegretConfig {
    RegretConfig {
        alpha: 1.5f32.to_bits(),
        beta: 0.0f32.to_bits(),
        gamma: 2.0f32.to_bits(),
        is_strategy,
        clamp_negative: false,
    }
}

fn regret_of(response: Result<Response, HandlerError>) -> Option<Vec<u32>> {
    match response {
        Ok(Response::Regret(rsp)) => rsp.regret,
        Ok(Response::Closed) => panic!("got closed provider"),
        Err(_) => panic!("failed to get regret"),
    }
}

#[test]
fn handles_delta_request_new() {
    let mut provider = HashRegretProvider::new();
    let infoset_hash = 1;
    let regret = bits(&[1.0, 2.0, 3.0]);
    provider.handle_regret_delta(
        RegretDelta {
            player: Player::P1,
            regret_delta: regret.clone(),
            infoset_hash,
            iteration: 1,
        },
        &fpu,
    );
    let saved_regret = &provider.p1_regrets[&infoset_hash];
    assert_eq!(*saved_regret, regret);
}

#[test]
fn gets_regret() {
    let mut provider = HashRegretProvider::new();
    let infoset_hash = 1;
    let regret = bits(&[1.0, 2.0, 3.0]);
    provider.p1_regrets.insert(1, regret.clone());

    let handler = provider.get_handler();

    handler
        .requester
        .try_send(Request::Regret(RegretRequest {
            player: Player::P1,
            infoset_hash,
            handler: handler.handler,
        }))
        .expect("failed to get regret");
    assert_eq!(provider.serve_next(&fpu), Ok(()));
    let rsp = handler.receiver.recv().expect("failed to get regret");

    if let Response::Regret(rsp) = rsp {
        assert_eq!(rsp.regret.unwrap(), regret);
    } else {
        panic!("got closed provider")
    }
}

#[test]
fn sends_delta_new() {
    let mut provider = HashRegretProvider::new();
    let infoset_hash = 1;
    let regret = bits(&[1.0, 2.0, 3.0]);
    let mut handler = provider.get_handler();

    handler
        .send_delta(Player::P1, infoset_hash, regret.clone(), 1)
        .expect("failed to send delta");
    assert_eq!(provider.serve_next(&fpu), Ok(()));

    handler
        .requester
        .try_send(Request::Regret(RegretRequest {
            player: Player::P1,
            infoset_hash,
            handler: handler.handler,
        }))
        .expect("failed to get regret");
    assert_eq!(provider.serve_next(&fpu), Ok(()));
    let rsp = handler.receiver.recv().expect("failed to get regret");

    if let Response::Regret(rsp) = rsp {
        assert_eq!(rsp.regret.unwrap(), regret);
    } else {
        panic!("got closed provider")
    }
}

#[test]
fn a_new_provider_has_the_documented_exponents() {
    let provider = HashRegretProvider::new();
    assert_eq!(f32::from_bits(provider.config.alpha), 1.5);
    assert_eq!(f32::from_bits(provider.config.beta), 0.0);
    assert_eq!(f32::from_bits(provider.config.gamma), 2.0);
    assert!(!provider.config.is_strategy);
    assert!(!provider.config.clamp_negative);
}

#[test]
fn default_config_has_the_documented_exponents() {
    let config = RegretConfig::default();
    assert_eq!(f32::from_bits(config.alpha), 1.5);
    assert_eq!(f32::from_bits(config.beta), 0.0);
    assert_eq!(f32::from_bits(config.gamma), 2.0);
    assert!(!config.is_strategy);
    assert!(!config.clamp_negative);
    assert_eq!(config.alpha, DEFAULT_ALPHA);
    assert_eq!(config.beta, DEFAULT_BETA);
    assert_eq!(config.gamma, DEFAULT_GAMMA);
}

#[test]
fn discount_law_scalar() {
    let config = dcfr_config(false);
    let mut r = 0.0f32;
    let mut previous = 0.0f32;
    let mut expected = 0.0f32;
    for t in 1..=5 {
        let w = (t as f32).powf(1.5);
        expected = expected * w / (w + 1.0) + 1.0;
        r = f32::from_bits(config.apply_delta(
            (t as f32).to_bits(),
            r.to_bits(),
            1.0f32.to_bits(),
            &fpu,
        ));
        assert_eq!(r, expected);
        // from zero, with the same positive delta, the entry keeps rising
        assert!(r > previous);
        previous = r;
    }
    // 1, 1.7388, 2.4582, 3.1851, 3.9236
    assert!((r - 3.9236).abs() < 0.001);
}

#[test]
fn discount_law_first_steps_by_hand() {
    let config = dcfr_config(false);
    // from 0 at iteration 1: 0 * 1 / 2 + 1
    let r1 = config.apply_delta(1.0f32.to_bits(), 0.0f32.to_bits(), 1.0f32.to_bits(), &fpu);
    assert_eq!(f32::from_bits(r1), 1.0);
    // from 1 at iteration 4: 1 * 8 / 9 + 1
    let r2 = config.apply_delta(4.0f32.to_bits(), 1.0f32.to_bits(), 1.0f32.to_bits(), &fpu);
    assert_eq!(f32::from_bits(r2), 8.0f32 / 9.0 + 1.0);
}

#[test]
fn discount_law_selects_the_exponent() {
    let config = dcfr_config(false);
    assert_eq!(config.exponent(2.0f32.to_bits()), 1.5f32.to_bits());
    assert_eq!(config.exponent(0.0f32.to_bits()), 1.5f32.to_bits());
    assert_eq!(config.exponent((-0.0f32).to_bits()), 1.5f32.to_bits());
    assert_eq!(config.exponent((-2.0f32).to_bits()), 0.0f32.to_bits());
    assert_eq!(config.exponent(f32::NAN.to_bits()), 1.5f32.to_bits());
    let strategy = dcfr_config(true);
    assert_eq!(strategy.exponent(2.0f32.to_bits()), 2.0f32.to_bits());
    assert_eq!(strategy.exponent((-2.0f32).to_bits()), 2.0f32.to_bits());
}

#[test]
fn discount_law_halves_negative_regret_with_beta_zero() {
    let config = dcfr_config(false);
    // beta = 0 gives the weight 1 at every iteration: -4 * 1 / 2 + 1
    let r = config.apply_delta(7.0f32.to_bits(), (-4.0f32).to_bits(), 1.0f32.to_bits(), &fpu);
    assert_eq!(f32::from_bits(r), -1.0);
}

#[test]
fn discount_law_strategy_uses_gamma() {
    let config = dcfr_config(true);
    // gamma = 2 at iteration 3: 2 * 9 / 10 + 0.5
    let r = config.apply_delta(3.0f32.to_bits(), 2.0f32.to_bits(), 0.5f32.to_bits(), &fpu);
    assert_eq!(f32::from_bits(r), 2.0f32 * 9.0 / 10.0 + 0.5);
}

#[test]
fn clamping_is_a_flag_and_off_by_default() {
    let keep = dcfr_config(false);
    let r = keep.apply_delta(1.0f32.to_bits(), 0.0f32.to_bits(), (-3.0f32).to_bits(), &fpu);
    assert_eq!(f32::from_bits(r), -3.0);
    let clamp = RegretConfig { clamp_negative: true, ..dcfr_config(false) };
    let r = clamp.apply_delta(1.0f32.to_bits(), 0.0f32.to_bits(), (-3.0f32).to_bits(), &fpu);
    assert_eq!(r, 0.0f32.to_bits());
    let r = clamp.apply_delta(1.0f32.to_bits(), 0.0f32.to_bits(), 3.0f32.to_bits(), &fpu);
    assert_eq!(f32::from_bits(r), 3.0);
}

#[test]
fn update_entry_keeps_the_length() {
    let config = dcfr_config(false);
    let current = bits(&[1.0, -2.0, 0.0, 4.0]);
    let delta = bits(&[0.5, 0.5, 0.5, 0.5]);
    let out = config.update_entry(&current, &delta, 2, &fpu);
    assert_eq!(out.len(), 4);
    let w = 2.0f32.powf(1.5);
    assert_eq!(
        floats(&out),
        vec![
            1.0 * w / (w + 1.0) + 0.5,
            -2.0 * 1.0 / 2.0 + 0.5,
            0.0 * w / (w + 1.0) + 0.5,
            4.0 * w / (w + 1.0) + 0.5
        ]
    );
}

#[test]
fn existing_entries_are_discounted() {
    let mut provider = HashRegretProvider::new();
    provider.set_config(&dcfr_config(false));
    for _ in 0..2 {
        let delta = RegretDelta {
            player: Player::P2,
            infoset_hash: 9,
            regret_delta: bits(&[1.0, 2.0]),
            iteration: 1,
        };
        assert!(provider.accepts(&delta));
        provider.handle_regret_delta(delta, &fpu);
    }
    assert_eq!(floats(&provider.p2_regrets[&9]), vec![1.5, 3.0]);
    assert!(provider.p1_regrets.is_empty());
    assert_eq!(provider.lookup(Player::P2, 9), Some(bits(&[1.5, 3.0])));
    assert_eq!(provider.lookup(Player::P1, 9), None);
    assert_eq!(provider.lookup(Player::P2, 8), None);
}

#[test]
fn short_deltas_change_nothing() {
    let mut provider = HashRegretProvider::new();
    provider.handle_regret_delta(
        RegretDelta { player: Player::P1, infoset_hash: 3, regret_delta: bits(&[1.0]), iteration: 1 },
        &fpu,
    );
    provider.handle_regret_delta(
        RegretDelta { player: Player::P1, infoset_hash: 3, regret_delta: vec![], iteration: 1 },
        &fpu,
    );
    assert!(provider.p1_regrets.is_empty());
    assert!(provider.p2_regrets.is_empty());
}

#[test]
fn deltas_of_another_length_are_refused() {
    let mut provider = HashRegretProvider::new();
    provider.p1_regrets.insert(5, bits(&[1.0, 2.0, 3.0]));
    let delta = RegretDelta {
        player: Player::P1,
        infoset_hash: 5,
        regret_delta: bits(&[1.0, 2.0]),
        iteration: 1,
    };
    assert!(!provider.accepts(&delta));
    assert_eq!(provider.dispatch(Request::Delta(delta), &fpu).err(), Some(Fault::ArityMismatch));
    assert_eq!(provider.p1_regrets[&5], bits(&[1.0, 2.0, 3.0]));
    let same_hash_other_player = RegretDelta {
        player: Player::P2,
        infoset_hash: 5,
        regret_delta: bits(&[1.0, 2.0]),
        iteration: 1,
    };
    assert!(provider.accepts(&same_hash_other_player));
}

#[test]
fn after_close_every_get_is_answered_closed() {
    let mut provider = HashRegretProvider::new();
    let first = provider.get_handler();
    let second = provider.get_handler();
    assert_eq!(first.handler, 0);
    assert_eq!(second.handler, 1);
    provider.p1_regrets.insert(1, bits(&[1.0, 2.0]));
    assert!(!provider.is_finished());

    let open = provider
        .dispatch(
            Request::Regret(RegretRequest { player: Player::P1, infoset_hash: 1, handler: 1 }),
            &fpu,
        )
        .unwrap()
        .unwrap();
    assert_eq!(open.0, 1);
    assert!(matches!(open.1, Response::Regret(_)));

    assert!(provider.dispatch(Request::Close, &fpu).unwrap().is_none());
    assert!(provider.close_flag);
    // closing twice is the same as closing once
    assert!(provider.dispatch(Request::Close, &fpu).unwrap().is_none());
    assert!(provider.close_flag);

    let closed = provider
        .dispatch(
            Request::Regret(RegretRequest { player: Player::P1, infoset_hash: 1, handler: 1 }),
            &fpu,
        )
        .unwrap()
        .unwrap();
    assert_eq!(closed.0, 1);
    assert!(matches!(closed.1, Response::Closed));
    assert_eq!(provider.closed_senders, vec![false, true]);
    assert_eq!(provider.num_closed, 1);
    assert!(!provider.is_finished());

    // telling a handler again does not count twice
    provider
        .dispatch(
            Request::Regret(RegretRequest { player: Player::P2, infoset_hash: 7, handler: 1 }),
            &fpu,
        )
        .unwrap();
    assert_eq!(provider.num_closed, 1);

    let closed = provider
        .dispatch(
            Request::Regret(RegretRequest { player: Player::P1, infoset_hash: 1, handler: 0 }),
            &fpu,
        )
        .unwrap()
        .unwrap();
    assert!(matches!(closed.1, Response::Closed));
    assert_eq!(provider.num_closed, 2);
    assert!(provider.is_finished());
}

#[test]
fn deltas_after_close_are_dropped() {
    let mut provider = HashRegretProvider::new();
    provider.dispatch(Request::Close, &fpu).unwrap();
    let served = provider.dispatch(
        Request::Delta(RegretDelta {
            player: Player::P1,
            infoset_hash: 1,
            regret_delta: bits(&[1.0, 2.0]),
            iteration: 1,
        }),
        &fpu,
    );
    assert!(served.unwrap().is_none());
    assert!(provider.p1_regrets.is_empty());
}

#[test]
fn requests_of_unknown_handlers_are_reported() {
    let mut provider = HashRegretProvider::new();
    let _handler = provider.get_handler();
    let served = provider.dispatch(
        Request::Regret(RegretRequest { player: Player::P1, infoset_hash: 1, handler: 1 }),
        &fpu,
    );
    assert_eq!(served.err(), Some(Fault::UnknownHandler));
}

#[test]
fn graceful_shutdown_over_channels() {
    let mut providers: Vec<HashRegretProvider> = (0..4).map(|_| HashRegretProvider::new()).collect();
    let mut sharders = vec![];
    for _ in 0..8 {
        sharders.push(dcfr::regret::regret_sharder::handlers_of(&mut providers));
    }
    for provider in providers.iter() {
        assert_eq!(provider.closed_senders.len(), 8);
        assert!(!provider.is_finished());
    }
    for handler in sharders[0].iter() {
        assert!(handler.send_close());
    }
    for provider in providers.iter_mut() {
        assert_eq!(provider.serve_next(&fpu), Ok(()));
        assert!(provider.close_flag);
    }
    for handlers in sharders.iter() {
        for (shard, handler) in handlers.iter().enumerate() {
            handler
                .requester
                .try_send(Request::Regret(RegretRequest {
                    player: Player::P1,
                    infoset_hash: shard as u64,
                    handler: handler.handler,
                }))
                .unwrap();
        }
    }
    for provider in providers.iter_mut() {
        let mut served = 0;
        while !provider.is_finished() {
            assert_eq!(provider.serve_next(&fpu), Ok(()));
            served += 1;
        }
        assert_eq!(served, 8);
    }
    for handlers in sharders.iter() {
        for handler in handlers.iter() {
            assert!(matches!(handler.receiver.recv().unwrap(), Response::Closed));
        }
    }
}

#[test]
fn a_provider_without_requests_to_come_reports_it() {
    let mut provider = HashRegretProvider::new();
    let handler = provider.get_handler();
    handler
        .requester
        .try_send(Request::Regret(RegretRequest {
            player: Player::P1,
            infoset_hash: 1,
            handler: 5,
        }))
        .unwrap();
    assert_eq!(provider.serve_next(&fpu), Err(Fault::UnknownHandler));
}

#[test]
fn direct_handler_reads_what_it_wrote() {
    let mut provider = HashRegretProvider::new();
    provider.set_config(&dcfr_config(false));
    let mut handler = DirectHandler::new(provider, fpu);
    assert_eq!(regret_of(handler.get_regret(Player::P1, 4)), None);
    handler.send_delta(Player::P1, 4, bits(&[1.0, -1.0]), 1).unwrap();
    assert_eq!(regret_of(handler.get_regret(Player::P1, 4)), Some(bits(&[1.0, -1.0])));
    assert_eq!(regret_of(handler.get_regret(Player::P2, 4)), None);
    assert_eq!(
        handler.send_delta(Player::P1, 4, bits(&[1.0, -1.0, 0.0]), 2),
        Err(HandlerError::Rejected)
    );
    handler.close();
    assert!(matches!(handler.get_regret(Player::P1, 4), Ok(Response::Closed)));
    handler.send_delta(Player::P1, 4, bits(&[5.0, 5.0]), 2).unwrap();
    assert_eq!(handler.provider.p1_regrets[&4], bits(&[1.0, -1.0]));
}

#[test]
fn sharder_routes_by_hash_modulo_shards() {
    let handlers: Vec<_> =
        (0..3).map(|_| DirectHandler::new(HashRegretProvider::new(), fpu)).collect();
    let mut sharder = RegretSharder::new(handlers);
    assert_eq!(sharder.shard_index(0), 0);
    assert_eq!(sharder.shard_index(1), 1);
    assert_eq!(sharder.shard_index(5), 2);
    assert_eq!(sharder.shard_index(u64::MAX), (u64::MAX % 3) as usize);
    sharder.send_delta(Player::P1, 5, bits(&[1.0, 2.0]), 1).unwrap();
    sharder.send_delta(Player::P2, 9, bits(&[3.0, 4.0]), 1).unwrap();
    assert!(sharder.regret_handlers[0].provider.p1_regrets.is_empty());
    assert!(sharder.regret_handlers[1].provider.p1_regrets.is_empty());
    assert_eq!(sharder.regret_handlers[2].provider.p1_regrets[&5], bits(&[1.0, 2.0]));
    assert_eq!(sharder.regret_handlers[0].provider.p2_regrets[&9], bits(&[3.0, 4.0]));
    assert_eq!(regret_of(sharder.get_regret(Player::P1, 5)), Some(bits(&[1.0, 2.0])));
    assert_eq!(regret_of(sharder.get_regret(Player::P1, 2)), None);
}

#[test]
fn one_shard_behaves_like_a_single_table() {
    let mut single = DirectHandler::new(HashRegretProvider::new(), fpu);
    let mut sharder = RegretSharder::new(vec![DirectHandler::new(HashRegretProvider::new(), fpu)]);
    let hashes = [0u64, 1, 2, 17, u64::MAX, 1 << 40];
    for (i, hash) in hashes.iter().enumerate() {
        assert_eq!(sharder.shard_index(*hash), 0);
        for t in 1..4 {
            let delta = bits(&[i as f32, -1.0, t as f32]);
            single.send_delta(Player::P1, *hash, delta.clone(), t).unwrap();
            sharder.send_delta(Player::P1, *hash, delta, t).unwrap();
        }
    }
    for hash in hashes.iter() {
        assert_eq!(
            regret_of(single.get_regret(Player::P1, *hash)),
            regret_of(sharder.get_regret(Player::P1, *hash))
        );
    }
    assert_eq!(single.provider.p1_regrets, sharder.regret_handlers[0].provider.p1_regrets);
}

#[test]
fn codec_layout_is_length_then_little_endian_elements() {
    let bytes = encode(&bits(&[1.0, -2.5])).unwrap();
    assert_eq!(
        bytes,
        vec![2, 0, 0, 0, 0x00, 0x00, 0x80, 0x3f, 0x00, 0x00, 0x20, 0xc0]
    );
    assert_eq!(encode(&vec![]).unwrap(), vec![0, 0, 0, 0]);
    assert_eq!(encode(&vec![0x0403_0201]).unwrap(), vec![1, 0, 0, 0, 1, 2, 3, 4]);
}

#[test]
fn codec_round_trip_is_exact() {
    let values = vec![
        0.0f32.to_bits(),
        (-0.0f32).to_bits(),
        1.0f32.to_bits(),
        f32::MIN_POSITIVE.to_bits(),
        f32::MAX.to_bits(),
        f32::INFINITY.to_bits(),
        f32::NAN.to_bits(),
        0xFFFF_FFFF,
        0x0102_0304,
        std::f32::consts::PI.to_bits(),
    ];
    let bytes = encode(&values).unwrap();
    assert_eq!(bytes.len(), 4 + 4 * values.len());
    assert_eq!(decode(&bytes), Ok(values));
    for n in 0..40u32 {
        let values: Vec<u32> = (0..n).map(|i| i.wrapping_mul(0x9E37_79B9) ^ n).collect();
        assert_eq!(decode(&encode(&values).unwrap()), Ok(values));
    }
}

#[test]
fn codec_refuses_malformed_values() {
    assert_eq!(decode(&[]), Err(CodecError::MissingLength));
    assert_eq!(decode(&[1, 0, 0]), Err(CodecError::MissingLength));
    assert_eq!(decode(&[1, 0, 0, 0]), Err(CodecError::WrongSize));
    assert_eq!(decode(&[1, 0, 0, 0, 1, 2, 3]), Err(CodecError::WrongSize));
    assert_eq!(decode(&[1, 0, 0, 0, 1, 2, 3, 4, 5]), Err(CodecError::WrongSize));
    assert_eq!(decode(&[0, 0, 0, 0, 9]), Err(CodecError::WrongSize));
    assert_eq!(decode(&[0xff, 0xff, 0xff, 0xff]), Err(CodecError::WrongSize));
    assert_eq!(decode(&[0, 0, 0, 0]), Ok(vec![]));
}

#[test]
fn keys_are_little_endian_hashes() {
    assert_eq!(key_bytes(0), vec![0; 8]);
    assert_eq!(key_bytes(1), vec![1, 0, 0, 0, 0, 0, 0, 0]);
    assert_eq!(
        key_bytes(0x0807_0605_0403_0201),
        vec![1, 2, 3, 4, 5, 6, 7, 8]
    );
    assert_eq!(key_bytes(u64::MAX), vec![0xff; 8]);
    for hash in [0u64, 255, 256, 0xdead_beef, u64::MAX - 1] {
        assert_eq!(key_bytes(hash), hash.to_le_bytes().to_vec());
    }
}

#[test]
fn stored_values_are_read_back() {
    match stored_regret(&None) {
        Ok(Response::Regret(rsp)) => assert_eq!(rsp.regret, None),
        _ => panic!("expected an empty answer"),
    }
    let raw = Some(encode(&bits(&[0.25, 0.75])).unwrap());
    match stored_regret(&raw) {
        Ok(Response::Regret(rsp)) => assert_eq!(rsp.regret, Some(bits(&[0.25, 0.75]))),
        _ => panic!("expected the stored vector"),
    }
    assert_eq!(stored_regret(&Some(vec![1, 2])).err(), Some(CodecError::MissingLength));
}

#[test]
fn stored_values_follow_the_discount_law() {
    let config = dcfr_config(false);
    let delta = bits(&[1.0, 2.0]);
    let first = next_stored(&config, &None, &delta, 1, &fpu).unwrap().unwrap();
    assert_eq!(decode(&first), Ok(bits(&[1.0, 2.0])));
    let second = next_stored(&config, &Some(first), &delta, 1, &fpu).unwrap().unwrap();
    assert_eq!(decode(&second), Ok(bits(&[1.5, 3.0])));
    // what a put of this value and a get of it return
    match stored_regret(&Some(second)) {
        Ok(Response::Regret(rsp)) => assert_eq!(rsp.regret, Some(bits(&[1.5, 3.0]))),
        _ => panic!("expected the stored vector"),
    }
}

#[test]
fn stored_values_refuse_what_does_not_fit() {
    let config = dcfr_config(false);
    let three = Some(encode(&bits(&[1.0, 2.0, 3.0])).unwrap());
    assert_eq!(next_stored(&config, &three, &bits(&[1.0]), 1, &fpu), Ok(None));
    assert_eq!(next_stored(&config, &None, &vec![], 1, &fpu), Ok(None));
    assert_eq!(
        next_stored(&config, &three, &bits(&[1.0, 2.0]), 1, &fpu),
        Err(StoreError::ArityMismatch)
    );
    assert_eq!(
        next_stored(&config, &Some(vec![9, 9, 9, 9]), &bits(&[1.0, 2.0]), 1, &fpu),
        Err(StoreError::Codec(CodecError::WrongSize))
    );
}

type Store = RefCell<HashMap<(bool, Vec<u8>), Vec<u8>>>;

fn fetch(store: &Store, player: Player, key: Vec<u8>) -> Fetched {
    match store.borrow().get(&(player == Player::P1, key)) {
        Some(bytes) => Fetched::Found(bytes.clone()),
        None => Fetched::Missing,
    }
}

fn put(store: &Store, player: Player, key: Vec<u8>, value: Vec<u8>) -> bool {
    store.borrow_mut().insert((player == Player::P1, key), value);
    true
}

#[test]
fn store_handler_reads_what_it_put() {
    let store: Store = RefCell::new(HashMap::new());
    let mut handler = KvRegretHandler::new(
        |p, k| fetch(&store, p, k),
        |p, k, v| put(&store, p, k, v),
        fpu,
        dcfr_config(false),
    );
    assert_eq!(regret_of(handler.get_regret(Player::P1, 77)), None);
    for v in [
        bits(&[1.0, 2.0]),
        bits(&[-0.5, 0.0, 1e-30, f32::MAX]),
        vec![f32::NAN.to_bits(), f32::INFINITY.to_bits()],
    ] {
        let hash = v.len() as u64 * 1000 + v[0] as u64;
        assert_eq!(handler.send_delta(Player::P2, hash, v.clone(), 1), Ok(()));
        assert_eq!(regret_of(handler.get_regret(Player::P2, hash)), Some(v));
        assert_eq!(regret_of(handler.get_regret(Player::P1, hash)), None);
    }
    // keys are the little-endian hashes, values the encoded vectors
    let key = (false, key_bytes(2000 + 1.0f32.to_bits() as u64));
    assert_eq!(store.borrow()[&key], encode(&bits(&[1.0, 2.0])).unwrap());
    assert!(!handler.closed);
}

#[test]
fn store_handler_discounts_what_is_stored() {
    let store: Store = RefCell::new(HashMap::new());
    let mut handler = KvRegretHandler::new(
        |p, k| fetch(&store, p, k),
        |p, k, v| put(&store, p, k, v),
        fpu,
        dcfr_config(false),
    );
    handler.send_delta(Player::P1, 5, bits(&[1.0, 2.0]), 1).unwrap();
    handler.send_delta(Player::P1, 5, bits(&[1.0, 2.0]), 1).unwrap();
    assert_eq!(regret_of(handler.get_regret(Player::P1, 5)), Some(bits(&[1.5, 3.0])));
    handler.send_delta(Player::P1, 5, bits(&[9.0]), 1).unwrap();
    assert_eq!(regret_of(handler.get_regret(Player::P1, 5)), Some(bits(&[1.5, 3.0])));
    assert_eq!(
        handler.send_delta(Player::P1, 5, bits(&[1.0, 2.0, 3.0]), 1),
        Err(HandlerError::Rejected)
    );
    assert!(!handler.closed);
    assert_eq!(store.borrow().len(), 1);
}

#[test]
fn store_handler_closes_when_the_store_fails() {
    let writes = RefCell::new(0);
    let mut handler = KvRegretHandler::new(
        |_, _| Fetched::Missing,
        |_, _, _| {
            *writes.borrow_mut() += 1;
            false
        },
        fpu,
        dcfr_config(false),
    );
    assert_eq!(
        handler.send_delta(Player::P1, 1, bits(&[1.0, 2.0]), 1),
        Err(HandlerError::StoreFailed)
    );
    assert!(handler.closed);
    assert!(matches!(handler.get_regret(Player::P1, 1), Ok(Response::Closed)));
    assert_eq!(handler.send_delta(Player::P1, 1, bits(&[1.0, 2.0]), 1), Ok(()));
    assert_eq!(*writes.borrow(), 1);

    let mut unreadable =
        KvRegretHandler::new(|_, _| Fetched::Failed, |_, _, _| true, fpu, dcfr_config(false));
    assert!(matches!(unreadable.get_regret(Player::P2, 1), Ok(Response::Closed)));
    assert!(unreadable.closed);

    let mut corrupt = KvRegretHandler::new(
        |_, _| Fetched::Found(vec![3, 0, 0, 0, 1]),
        |_, _, _| true,
        fpu,
        dcfr_config(false),
    );
    assert!(matches!(corrupt.get_regret(Player::P2, 1), Ok(Response::Closed)));
    assert!(corrupt.closed);
}

#[test]
fn eight_shards_hold_what_one_would() {
    let shards = |n: usize| {
        RegretSharder::new(
            (0..n)
                .map(|_| {
                    let mut provider = HashRegretProvider::new();
                    provider.set_config(&dcfr_config(false));
                    DirectHandler::new(provider, fpu)
                })
                .collect::<Vec<_>>(),
        )
    };
    let mut one = shards(1);
    let mut eight = shards(8);
    let hashes: Vec<u64> = (0..40u64).map(|i| i.wrapping_mul(0x9E37_79B9_7F4A_7C15) >> 7).collect();
    for (i, hash) in hashes.iter().enumerate() {
        for t in 1..4 {
            let player = if (i + t as usize) % 2 == 0 { Player::P1 } else { Player::P2 };
            let delta = bits(&[i as f32 - 20.0, t as f32, -1.5]);
            assert_eq!(
                one.send_delta(player, *hash, delta.clone(), t),
                eight.send_delta(player, *hash, delta, t)
            );
        }
    }
    let mut held = 0;
    for hash in hashes.iter() {
        for player in [Player::P1, Player::P2] {
            assert_eq!(
                regret_of(one.get_regret(player, *hash)),
                regret_of(eight.get_regret(player, *hash))
            );
        }
        // the infoset lives in the shard that owns it and in no other
        for (shard, handler) in eight.regret_handlers.iter().enumerate() {
            let here = handler.provider.p1_regrets.contains_key(hash)
                || handler.provider.p2_regrets.contains_key(hash);
            assert_eq!(here, shard as u64 == hash % 8);
            held += here as usize;
        }
    }
    assert_eq!(held, hashes.len());
    let total: usize = eight
        .regret_handlers
        .iter()
        .map(|h| h.provider.p1_regrets.len() + h.provider.p2_regrets.len())
        .sum();
    let single = &one.regret_handlers[0].provider;
    assert_eq!(total, single.p1_regrets.len() + single.p2_regrets.len());
}
