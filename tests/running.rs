use read_latency::{
    count_candidates, sum_category, summarize, Category, Config, FarDivisor, ProbeAction,
    ProbeResult, ProbeSession, RunSummary, ScheduleError, Scheduler,
};

fn result(open: u64, first: u64, near: u64, far: u64, total: u64) -> ProbeResult {
    ProbeResult { open_ns: open, first_read_ns: first, near_read_ns: near, far_read_ns: far, total_ns: total }
}

fn run_probe(c: &Config, far: Vec<u64>) -> (Vec<ProbeAction>, ProbeResult) {
    let mut s = ProbeSession::new(c, far, 100);
    let mut actions = Vec::new();
    let mut clock = 100u64;
    let mut step = 0u64;
    loop {
        let a = s.next_action();
        actions.push(a);
        if a == ProbeAction::Finish {
            break;
        }
        step += 1;
        let start = clock + 1;
        let end = start + 10 * step;
        s.record(start, end);
        clock = end;
    }
    (actions, s.finish(clock + 5))
}

#[test]
fn probe_steps_in_order() {
    let c = Config::default_config();
    let (actions, r) = run_probe(&c, vec![60000000, 70000000]);
    assert_eq!(
        actions,
        vec![
            ProbeAction::Open,
            ProbeAction::Read { offset: 0, len: 4096 },
            ProbeAction::Read { offset: 40960, len: 4096 },
            ProbeAction::Read { offset: 60000000, len: 4096 },
            ProbeAction::Read { offset: 70000000, len: 4096 },
            ProbeAction::Finish,
        ]
    );
    assert_eq!(r.open_ns, 10);
    assert_eq!(r.first_read_ns, 20);
    assert_eq!(r.near_read_ns, 30);
    // far reads took 40 and 50; divided over the 156 candidates
    assert_eq!(r.far_read_ns, 90 / 156);
    // five steps, each after a gap of one, plus five at the end
    assert_eq!(r.total_ns, 150 + 5 + 5);
    assert!(r.open_ns + r.first_read_ns + r.near_read_ns + r.far_read_ns <= r.total_ns);
}

#[test]
fn probe_far_average_over_samples() {
    let c = Config { far_divisor: FarDivisor::SamplesRead, ..Config::default_config() };
    let (_, r) = run_probe(&c, vec![60000000, 70000000]);
    assert_eq!(r.far_read_ns, 45);
}

#[test]
fn probe_without_far_reads() {
    let c = Config { far_divisor: FarDivisor::SamplesRead, ..Config::default_config() };
    let (actions, r) = run_probe(&c, vec![]);
    assert_eq!(actions.len(), 4);
    assert_eq!(r.far_read_ns, 0);
    assert_eq!(r.total_ns, 60 + 3 + 5);
}

#[test]
fn candidate_count_matches_list() {
    let c = Config::default_config();
    assert_eq!(count_candidates(&c), 156);
    let small = Config { file_size: 1024 * 1024, far_first: 0, far_end: 10, ..c };
    assert_eq!(count_candidates(&small), 2);
}

#[test]
fn scheduler_respects_bound() {
    let mut s = Scheduler::new(3, 2).unwrap();
    assert_eq!(s.start_next(), Some(0));
    assert_eq!(s.start_next(), Some(1));
    assert_eq!(s.start_next(), None);
    assert_eq!(s.complete(1, result(1, 1, 1, 1, 4)), Ok(()));
    assert_eq!(s.start_next(), Some(2));
    assert_eq!(s.start_next(), None);
    assert!(!s.is_done());
    assert_eq!(s.complete(2, result(2, 2, 2, 2, 8)), Ok(()));
    assert_eq!(s.complete(0, result(3, 3, 3, 3, 12)), Ok(()));
    assert!(s.is_done());
    assert!(s.peak <= 2);
    let out = s.into_results().unwrap();
    assert_eq!(out.len(), 3);
    assert_eq!(out[0], result(3, 3, 3, 3, 12));
    assert_eq!(out[1], result(1, 1, 1, 1, 4));
    assert_eq!(out[2], result(2, 2, 2, 2, 8));
}

#[test]
fn scheduler_refuses_bad_completions() {
    assert!(matches!(Scheduler::new(3, 0), Err(ScheduleError::ZeroBound)));
    let mut s = Scheduler::new(2, 5).unwrap();
    assert_eq!(s.complete(0, result(0, 0, 0, 0, 0)), Err(ScheduleError::NotRunning));
    assert_eq!(s.start_next(), Some(0));
    assert_eq!(s.complete(0, result(0, 0, 0, 0, 0)), Ok(()));
    assert_eq!(s.complete(0, result(0, 0, 0, 0, 0)), Err(ScheduleError::NotRunning));
    assert_eq!(s.complete(7, result(0, 0, 0, 0, 0)), Err(ScheduleError::NotRunning));
    assert!(s.into_results().is_none());
}

#[test]
fn scheduler_every_file_once_any_bound() {
    for bound in 1..8usize {
        let mut s = Scheduler::new(5, bound).unwrap();
        let mut in_flight: Vec<usize> = Vec::new();
        let mut peak = 0;
        loop {
            while let Some(i) = s.start_next() {
                in_flight.push(i);
            }
            peak = peak.max(in_flight.len());
            match in_flight.pop() {
                Some(i) => s.complete(i, result(i as u64, 0, 0, 0, i as u64)).unwrap(),
                None => break,
            }
        }
        assert!(peak <= bound);
        let out = s.into_results().unwrap();
        assert_eq!(out.len(), 5);
        for (i, r) in out.iter().enumerate() {
            assert_eq!(r.open_ns, i as u64);
        }
    }
}

#[test]
fn scheduler_empty_population() {
    let mut s = Scheduler::new(0, 1).unwrap();
    assert_eq!(s.start_next(), None);
    assert!(s.is_done());
    assert_eq!(s.into_results().unwrap(), Vec::<ProbeResult>::new());
}

#[test]
fn summary_is_mean_per_category() {
    let results = vec![result(10, 20, 30, 40, 100), result(20, 40, 60, 80, 200), result(30, 0, 1, 3, 50)];
    assert_eq!(sum_category(&results, Category::Open), 60);
    assert_eq!(sum_category(&results, Category::FarRead), 123);
    let s = summarize(&results, 999).unwrap();
    assert_eq!(
        s,
        RunSummary { files: 3, open_ns: 20, first_read_ns: 20, near_read_ns: 30, far_read_ns: 41, run_ns: 999 }
    );
}

#[test]
fn summary_of_nothing() {
    assert_eq!(summarize(&vec![], 5), None);
}

#[test]
fn summary_with_largest_times() {
    let m = u64::MAX;
    let results = vec![result(m, m, m, m, m), result(m, m, m, m, m)];
    assert_eq!(sum_category(&results, Category::NearRead), 2 * (m as u128));
    let s = summarize(&results, 1).unwrap();
    assert_eq!((s.open_ns, s.first_read_ns, s.near_read_ns, s.far_read_ns), (m, m, m, m));
}

#[test]
fn scenario_three_files_bound_two() {
    let c = Config { far_divisor: FarDivisor::SamplesRead, ..Config::default_config() };
    let mut s = Scheduler::new(3, 2).unwrap();
    let mut running: Vec<usize> = Vec::new();
    loop {
        while let Some(i) = s.start_next() {
            running.push(i);
        }
        match running.pop() {
            Some(i) => {
                let (_, r) = run_probe(&c, vec![60000000, 70000000]);
                s.complete(i, r).unwrap();
            }
            None => break,
        }
    }
    assert!(s.peak <= 2);
    let out = s.into_results().unwrap();
    assert_eq!(out.len(), 3);
    let summary = summarize(&out, 1000).unwrap();
    assert_eq!(summary.files, 3);
    assert_eq!(summary.far_read_ns, 45);
}
