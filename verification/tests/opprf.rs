use std::collections::{HashMap, HashSet};

use opprf::field::Fp;
use opprf::oprf::BaseOprf;
use opprf::preprocessed::opprf::{
    OpprfError, SepOpprfReceiver, SepOpprfReceiverWithVole, SepOpprfSender, SepOpprfSenderWithVole,
};
use opprf::solver::{ListSolver, Solver};
use rand::rngs::StdRng;
use rand::seq::SliceRandom;
use rand::{Rng, SeedableRng};

fn create_sets(set_size: usize, common_size: usize, rng: &mut StdRng) -> (Vec<Fp>, Vec<Fp>, Vec<Fp>) {
    if set_size < common_size {
        panic!("set_size (={}) < common_size (={})", set_size, common_size);
    }

    let common: Vec<Fp> = {
        let mut seen: HashSet<u64> = HashSet::new();
        while seen.len() < common_size {
            seen.insert(Fp::new(rng.gen::<u64>()).v);
        }
        seen.into_iter().map(Fp::new).collect()
    };

    let mut set1: HashSet<u64> = common.iter().map(|x| x.v).collect();
    while set1.len() < set_size {
        set1.insert(Fp::new(rng.gen::<u64>()).v);
    }

    let mut set2: HashSet<u64> = common.iter().map(|x| x.v).collect();
    while set2.len() < set_size {
        set2.insert(Fp::new(rng.gen::<u64>()).v);
    }

    let intersection: Vec<Fp> =
        set1.iter().filter(|x| set2.contains(x)).map(|&x| Fp::new(x)).collect();

    let mut set1: Vec<Fp> = set1.into_iter().map(Fp::new).collect();
    set1.shuffle(rng);
    let mut set2: Vec<Fp> = set2.into_iter().map(Fp::new).collect();
    set2.shuffle(rng);

    (set1, set2, intersection)
}

fn test_sep_opprf_base(set_size: usize, common_size: usize) {
    let mut rng = StdRng::seed_from_u64(31 * set_size as u64 + common_size as u64);
    let (sender_set, receiver_set, intersection) = create_sets(set_size, common_size, &mut rng);

    let points: Vec<(Fp, Fp)> = sender_set
        .iter()
        .enumerate()
        .map(|(i, &x)| (x, Fp::new(i as u64)))
        .collect();

    // One completed base-OPRF offline phase, shared by the two roles.
    let base = BaseOprf::new(Fp::new(rng.gen::<u64>()), Fp::new(rng.gen::<u64>()));

    let opprf_sender =
        SepOpprfSenderWithVole::<ListSolver>::precomp(sender_set.len(), base).unwrap();
    let opprf_receiver =
        SepOpprfReceiverWithVole::<ListSolver>::precomp(receiver_set.len(), base).unwrap();

    let (payload, fk) = opprf_sender.send(&points, points.len()).unwrap();

    // Sender side: every programmed point evaluates to its programmed value.
    for &(x, y) in points.iter() {
        assert_eq!(fk.evaluate(x).unwrap(), y);
    }

    let received = opprf_receiver.receive(&payload, &receiver_set).unwrap();

    // Order preservation: one output per query, in query order.
    assert_eq!(received.len(), receiver_set.len());
    for (i, &(x, _)) in received.iter().enumerate() {
        assert_eq!(x, receiver_set[i]);
    }

    // Receiver side: programmed inputs decode to the programmed values, and
    // every output agrees with the Sender's own function.
    let programmed: HashMap<u64, Fp> = points.iter().map(|&(x, y)| (x.v, y)).collect();
    let mut hits = 0;
    for &(x, y) in received.iter() {
        if let Some(&z) = programmed.get(&x.v) {
            assert_eq!(y, z);
            hits += 1;
        }
        assert_eq!(fk.evaluate(x).unwrap(), y);
    }
    assert_eq!(hits, intersection.len());
}

#[test]
fn test_sep_opprf_vandelmonde_small() {
    test_sep_opprf_base(10, 5);
}

#[test]
fn test_sep_opprf_paxos_small() {
    test_sep_opprf_base(10, 5);
}

#[test]
fn test_sep_opprf_paxos_middle() {
    test_sep_opprf_base(100, 50);
}

#[test]
fn test_sep_opprf_paxos_large() {
    test_sep_opprf_base(1 << 12, 1 << 6);
}

#[test]
fn test_programmed_points_scenario() {
    // Ten programmed points at inputs 0..10; input 1 maps to 111 and input 5
    // to 555.  The Receiver's ten queries share five elements with the
    // Sender's inputs.
    let points: Vec<(Fp, Fp)> = (0u64..10)
        .map(|i| {
            let z = match i {
                1 => 111,
                5 => 555,
                _ => 1000 + i,
            };
            (Fp::new(i), Fp::new(z))
        })
        .collect();
    let queries: Vec<Fp> =
        [1u64, 5, 7, 9, 3, 100, 101, 102, 103, 104].iter().map(|&q| Fp::new(q)).collect();

    let base = BaseOprf::new(Fp::new(42), Fp::new(1234567));
    let sender = SepOpprfSenderWithVole::<ListSolver>::precomp(points.len(), base).unwrap();
    let receiver = SepOpprfReceiverWithVole::<ListSolver>::precomp(queries.len(), base).unwrap();

    let (payload, fk) = sender.send(&points, points.len()).unwrap();
    let received = receiver.receive(&payload, &queries).unwrap();

    assert_eq!(received[0].1, Fp::new(111));
    assert_eq!(received[1].1, Fp::new(555));
    assert_eq!(fk.evaluate(Fp::new(1)).unwrap(), Fp::new(111));
    assert_eq!(fk.evaluate(Fp::new(5)).unwrap(), Fp::new(555));

    // A non-programmed query still agrees across the two roles.
    assert_eq!(fk.evaluate(Fp::new(100)).unwrap(), received[5].1);
}

#[test]
fn test_send_rejects_conflicting_points() {
    // Two points forcing different values onto one input can never be
    // encoded; after the bounded retries, send reports the exhaustion.
    let points = vec![(Fp::new(7), Fp::new(1)), (Fp::new(7), Fp::new(2))];
    let base = BaseOprf::new(Fp::new(3), Fp::new(4));
    let sender = SepOpprfSenderWithVole::<ListSolver>::precomp(2, base).unwrap();
    match sender.send(&points, 2) {
        Ok(_) => panic!("conflicting points must not encode"),
        Err(err) => assert_eq!(err, OpprfError::EncodingFailed),
    }
}

#[test]
fn test_send_accepts_repeated_consistent_points() {
    let points = vec![(Fp::new(7), Fp::new(1)), (Fp::new(7), Fp::new(1))];
    let base = BaseOprf::new(Fp::new(3), Fp::new(4));
    let sender = SepOpprfSenderWithVole::<ListSolver>::precomp(2, base).unwrap();
    let (_, fk) = sender.send(&points, 2).unwrap();
    assert_eq!(fk.evaluate(Fp::new(7)).unwrap(), Fp::new(1));
}

#[test]
fn test_calc_params_deterministic() {
    let p1 = ListSolver::calc_params(10);
    let p2 = ListSolver::calc_params(10);
    assert_eq!(p1, p2);
    assert_eq!(p1.code_length, 20);
    // Both roles derive their parameters the same way for the same count.
    let base = BaseOprf::new(Fp::new(1), Fp::new(2));
    let sender = SepOpprfSenderWithVole::<ListSolver>::precomp(10, base).unwrap();
    let receiver = SepOpprfReceiverWithVole::<ListSolver>::precomp(10, base).unwrap();
    assert_eq!(sender.params, receiver.params);
}

#[test]
fn test_receive_preserves_order_with_repeats() {
    let points = vec![(Fp::new(2), Fp::new(20)), (Fp::new(4), Fp::new(40))];
    let queries: Vec<Fp> = [9u64, 2, 2, 4, 9].iter().map(|&q| Fp::new(q)).collect();
    let base = BaseOprf::new(Fp::new(5), Fp::new(6));
    let sender = SepOpprfSenderWithVole::<ListSolver>::precomp(2, base).unwrap();
    let receiver = SepOpprfReceiverWithVole::<ListSolver>::precomp(queries.len(), base).unwrap();
    let (payload, _) = sender.send(&points, 2).unwrap();
    let received = receiver.receive(&payload, &queries).unwrap();
    assert_eq!(received.len(), queries.len());
    for (i, &(x, _)) in received.iter().enumerate() {
        assert_eq!(x, queries[i]);
    }
    // Repeated queries get identical outputs.
    assert_eq!(received[1].1, received[2].1);
    assert_eq!(received[0].1, received[4].1);
    assert_eq!(received[1].1, Fp::new(20));
    assert_eq!(received[3].1, Fp::new(40));
}

#[test]
fn test_clone_for_benchmarking_reruns() {
    // The clone escape hatch: the same precomputed state, duplicated, can
    // drive two runs that program the same points identically.
    let points = vec![(Fp::new(1), Fp::new(10)), (Fp::new(2), Fp::new(20))];
    let base = BaseOprf::new(Fp::new(11), Fp::new(13));
    let sender = SepOpprfSenderWithVole::<ListSolver>::precomp(2, base).unwrap();
    let sender_again = sender.clone();
    let receiver = SepOpprfReceiverWithVole::<ListSolver>::precomp(2, base).unwrap();
    let receiver_again = receiver.clone();

    let queries: Vec<Fp> = vec![Fp::new(1), Fp::new(2)];
    let (payload1, fk1) = sender.send(&points, 2).unwrap();
    let (payload2, fk2) = sender_again.send(&points, 2).unwrap();
    let out1 = receiver.receive(&payload1, &queries).unwrap();
    let out2 = receiver_again.receive(&payload2, &queries).unwrap();
    for i in 0..queries.len() {
        assert_eq!(out1[i], out2[i]);
        assert_eq!(fk1.evaluate(queries[i]).unwrap(), fk2.evaluate(queries[i]).unwrap());
    }
}
