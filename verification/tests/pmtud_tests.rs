//! Path MTU discovery: loss accounting over the search table, restarts on
//! shrink, stops during search, and the full walk to a path's true MTU.

use quictrans::inet::IpAddr;
use quictrans::packet::{Builder, PacketType};
use quictrans::pmtud::{Pmtud, Probe, MAX_PROBES};
use quictrans::recovery::SentPacket;
use quictrans::stats::Stats;
use quictrans::time::{Duration, Instant};
use quictrans::tos::Ecn;

fn v4() -> IpAddr {
    IpAddr::v4(0, 0, 0, 0)
}

fn v6() -> IpAddr {
    IpAddr::v6(0, 0, 0, 0, 0, 0, 0, 0)
}

fn now() -> Instant {
    Instant::from_micros(1_000_000)
}

fn make_sentpacket(pn: u64, now: Instant, len: usize) -> SentPacket {
    SentPacket::new(PacketType::Short, pn, Ecn::NotEct, now, true, Vec::new(), len)
}

/// Increments the loss counts for entries that needed the given size.
fn search_table_inc(pmtud: &Pmtud, loss_counts: &[usize], sz: usize) -> Vec<usize> {
    pmtud
        .search_table
        .iter()
        .zip(loss_counts.iter())
        .map(|(&s, &c)| if s >= sz + pmtud.header_size { c + 1 } else { c })
        .collect()
}

/// Zeros the loss counts at and below the given size.
fn search_table_zero(pmtud: &Pmtud, loss_counts: &[usize], sz: usize) -> Vec<usize> {
    pmtud
        .search_table
        .iter()
        .zip(loss_counts.iter())
        .map(|(&s, &c)| if s <= sz + pmtud.header_size { 0 } else { c })
        .collect()
}

fn assert_pmtud_restarted(pmtud: &Pmtud) {
    assert_eq!(Probe::Needed, pmtud.probe_state);
    assert_eq!(pmtud.mtu, pmtud.search_table[0]);
    assert_eq!(vec![0; pmtud.search_table.len()], pmtud.loss_counts);
}

fn assert_pmtud_stopped(pmtud: &Pmtud, mtu: usize) {
    assert_eq!(pmtud.mtu, mtu);
    assert_eq!(vec![0; pmtud.search_table.len()], pmtud.loss_counts);
}

#[test]
fn pmtud_on_packets_lost() {
    let now = now();
    let mut pmtud = Pmtud::new(v4());
    let mut stats = Stats::default();

    // No packets lost, nothing should change.
    pmtud.on_packets_lost(&[], &mut stats, now);
    assert_eq!(vec![0; pmtud.search_table.len()], pmtud.loss_counts);

    // A packet of size 100 was lost, which is smaller than all probe sizes.
    pmtud.on_packets_lost(&[make_sentpacket(0, now, 100)], &mut stats, now);
    assert_eq!(vec![1; pmtud.search_table.len()], pmtud.loss_counts);

    pmtud.loss_counts.fill(0); // Reset the loss counts.

    // A packet of size 1500 was lost, which should increase loss counts >= 1500 by one.
    let plen = 1500 - pmtud.header_size;
    let mut expected_lc = search_table_inc(&pmtud, &pmtud.loss_counts, plen);
    pmtud.on_packets_lost(&[make_sentpacket(0, now, plen)], &mut stats, now);
    assert_eq!(expected_lc, pmtud.loss_counts);

    // A packet of size 2000 was lost, which should increase loss counts >= 2000 by one.
    expected_lc = search_table_inc(&pmtud, &expected_lc, 2000);
    pmtud.on_packets_lost(&[make_sentpacket(0, now, 2000)], &mut stats, now);
    assert_eq!(expected_lc, pmtud.loss_counts);

    // A packet of size 5000 was lost, which should increase loss counts >= 5000 by one. There
    // have now been `MAX_PROBES` losses of packets >= 5000, so the PMTUD process should have
    // restarted.
    pmtud.on_packets_lost(&[make_sentpacket(0, now, 5000)], &mut stats, now);
    assert_pmtud_restarted(&pmtud);
    expected_lc.fill(0); // Reset the expected loss counts.

    // Two packets of size 4000 were lost, which should increase loss counts >= 4000 by two.
    let expected_lc = search_table_inc(&pmtud, &expected_lc, 4000);
    let expected_lc = search_table_inc(&pmtud, &expected_lc, 4000);
    pmtud.on_packets_lost(
        &[make_sentpacket(0, now, 4000), make_sentpacket(0, now, 4000)],
        &mut stats,
        now,
    );
    assert_eq!(expected_lc, pmtud.loss_counts);

    // A packet of size 2000 was lost, which should increase loss counts >= 2000 by one. There
    // have now been `MAX_PROBES` losses of packets >= 4000, so the PMTUD process should have
    // stopped.
    pmtud.on_packets_lost(
        &[make_sentpacket(0, now, 2000), make_sentpacket(0, now, 2000)],
        &mut stats,
        now,
    );
    assert_pmtud_stopped(&pmtud, 2047);
}

#[test]
fn pmtud_on_packets_lost_and_acked() {
    let now = now();
    let mut pmtud = Pmtud::new(v4());
    let mut stats = Stats::default();

    // One packet of size 4000 was lost, which should increase loss counts >= 4000 by one.
    let expected_lc = search_table_inc(&pmtud, &pmtud.loss_counts, 4000);
    pmtud.on_packets_lost(&[make_sentpacket(0, now, 4000)], &mut stats, now);
    assert_eq!(expected_lc, pmtud.loss_counts);

    // Now a packet of size 5000 is ACKed, which should reset all loss counts <= 5000.
    pmtud.on_packets_acked(&[make_sentpacket(0, now, 5000)], &mut stats);
    let expected_lc = search_table_zero(&pmtud, &pmtud.loss_counts, 5000);
    assert_eq!(expected_lc, pmtud.loss_counts);

    // Now, one more packets of size 4000 was lost, which should increase loss counts >= 4000
    // by one.
    let expected_lc = search_table_inc(&pmtud, &expected_lc, 4000);
    pmtud.on_packets_lost(&[make_sentpacket(0, now, 4000)], &mut stats, now);
    assert_eq!(expected_lc, pmtud.loss_counts);

    // Now a packet of size 8000 is ACKed, which should reset all loss counts <= 8000.
    pmtud.on_packets_acked(&[make_sentpacket(0, now, 8000)], &mut stats);
    let expected_lc = search_table_zero(&pmtud, &pmtud.loss_counts, 8000);
    assert_eq!(expected_lc, pmtud.loss_counts);

    // Now, one more packets of size 9000 was lost, which should increase loss counts >= 9000
    // by one. There have now been `MAX_PROBES` losses of packets >= 8191, so the PMTUD process
    // should have restarted.
    pmtud.on_packets_lost(&[make_sentpacket(0, now, 9000)], &mut stats, now);
    assert_pmtud_restarted(&pmtud);
}

/// Sends one probe and feeds back an acknowledgement or a loss depending on
/// whether it fits the path's true MTU.
fn pmtud_step(pmtud: &mut Pmtud, stats: &mut Stats, mtu: usize, now: Instant, pn: &mut u64) {
    let stats_before = stats.clone();
    let probe_size = pmtud.probe_size();
    let mut builder = Builder::new(Vec::new(), probe_size);
    pmtud.send_probe(&mut builder, stats);
    builder.pad();
    let encoder = builder.build();
    assert_eq!(encoder.len(), pmtud.probe_size());
    assert!(!pmtud.needs_probe());
    assert_eq!(stats_before.pmtud_tx + 1, stats.pmtud_tx);

    let packet = make_sentpacket(*pn, now, encoder.len());
    *pn += 1;
    if encoder.len() + pmtud.header_size <= mtu {
        pmtud.on_packets_acked(&[packet], stats);
        assert_eq!(stats_before.pmtud_ack + 1, stats.pmtud_ack);
    } else {
        pmtud.on_packets_lost(&[packet], stats, now);
        assert_eq!(stats_before.pmtud_lost + 1, stats.pmtud_lost);
    }
}

fn assert_mtu(pmtud: &Pmtud, mtu: usize) {
    let idx = pmtud
        .search_table
        .iter()
        .position(|x| *x == pmtud.mtu)
        .unwrap();
    assert!(mtu >= pmtud.search_table[idx]);
    if idx < pmtud.search_table.len() - 1 {
        assert!(mtu < pmtud.search_table[idx + 1]);
    }
}

fn find_pmtu(addr: IpAddr, mtu: usize) {
    let now = now();
    let mut pmtud = Pmtud::new(addr);
    let mut stats = Stats::default();
    let mut pn = 0u64;

    pmtud.start_pmtud();
    assert!(pmtud.needs_probe());

    while pmtud.needs_probe() {
        pmtud_step(&mut pmtud, &mut stats, mtu, now, &mut pn);
    }
    assert_mtu(&pmtud, mtu);
}

#[test]
fn discovery_walks_to_1500_v4() {
    // A path whose true MTU is 1500 is discovered exactly: probes at 1380,
    // 1420, 1472 and 1500 succeed, 2047 fails three times.
    find_pmtu(v4(), 1500);
}

#[test]
fn discovery_walks_to_top_v4() {
    find_pmtu(v4(), u16::MAX.into());
}

#[test]
fn discovery_walks_to_1500_v6() {
    find_pmtu(v6(), 1500);
}

#[test]
fn discovery_restarts_after_shrink() {
    let now = now();
    let mut pmtud = Pmtud::new(v4());
    let mut stats = Stats::default();
    let mut pn = 0u64;

    pmtud.start_pmtud();
    while pmtud.needs_probe() {
        pmtud_step(&mut pmtud, &mut stats, 1500, now, &mut pn);
    }
    assert_mtu(&pmtud, 1500);

    // Drop packets of the current size until a probe is needed again.
    while !pmtud.needs_probe() {
        let packet = make_sentpacket(pn, now, pmtud.mtu - pmtud.header_size);
        pn += 1;
        pmtud.on_packets_lost(&[packet], &mut stats, now);
    }
    assert!(stats.pmtud_change >= 1);

    // Drive the second search to completion against a smaller path.
    while pmtud.needs_probe() {
        pmtud_step(&mut pmtud, &mut stats, 1380, now, &mut pn);
    }
    assert_mtu(&pmtud, 1380);
}

#[test]
fn raise_timer_resumes_search() {
    let now = now();
    let mut pmtud = Pmtud::new(v4());
    let mut stats = Stats::default();
    let mut pn = 0u64;

    pmtud.start_pmtud();
    while pmtud.needs_probe() {
        pmtud_step(&mut pmtud, &mut stats, 1500, now, &mut pn);
    }
    assert_mtu(&pmtud, 1500);
    assert!(pmtud.raise_timer.is_some());

    // Long before the timer nothing changes; at the timer the search
    // resumes and can find a grown path.
    pmtud.maybe_fire_pmtud_raise_timer(now);
    assert!(!pmtud.needs_probe());
    let later = now.plus(Duration::from_secs(600));
    pmtud.maybe_fire_pmtud_raise_timer(later);
    assert!(pmtud.needs_probe());
    while pmtud.needs_probe() {
        pmtud_step(&mut pmtud, &mut stats, 65535, later, &mut pn);
    }
    assert_mtu(&pmtud, 65535);
}

#[test]
fn default_plpmtu_by_family() {
    assert_eq!(Pmtud::default_plpmtu(v4()), 1252);
    assert_eq!(Pmtud::default_plpmtu(v6()), 1232);
    assert_eq!(Pmtud::new(v4()).plpmtu(), 1252);
    assert_eq!(MAX_PROBES, 3);
}
