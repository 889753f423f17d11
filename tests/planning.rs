use read_latency::{
    far_candidates, file_names, files_to_create, format_file_name, next_write_len, pick_far_offsets, take_samples,
    Config, ConfigError, FarDivisor, DEFAULT_FILE_SIZE,
};

fn small_config(file_size: u64) -> Config {
    Config {
        num_files: 3,
        file_size,
        write_chunk: 1024,
        read_len: 4096,
        near_offset: 40960,
        far_stride: 524288,
        far_first: 0,
        far_end: 10,
        far_samples: 2,
        far_divisor: FarDivisor::SamplesRead,
    }
}

fn write_all(file_size: u64, chunk: u64) -> Vec<u64> {
    let mut writes = Vec::new();
    let mut written = 0u64;
    loop {
        let n = next_write_len(file_size, chunk, written);
        if n == 0 {
            break;
        }
        writes.push(n);
        written += n;
    }
    writes
}

#[test]
fn default_config_values() {
    let c = Config::default_config();
    assert_eq!(c.num_files, 128);
    assert_eq!(c.file_size, 200 * 1024 * 1024);
    assert_eq!(c.write_chunk, 1024 * 1024);
    assert_eq!(c.read_len, 4096);
    assert_eq!(c.near_offset, 10 * 4096);
    assert_eq!(c.far_stride, 512 * 1024);
    assert_eq!((c.far_first, c.far_end, c.far_samples), (100, 256, 2));
    assert_eq!(c.far_divisor, FarDivisor::Candidates);
    assert_eq!(c.validate(), Ok(()));
    assert_eq!(Config::default(), c);
}

#[test]
fn validate_reports_each_problem() {
    let good = small_config(1024 * 1024);
    assert_eq!(good.validate(), Ok(()));
    assert_eq!(Config { write_chunk: 0, ..good }.validate(), Err(ConfigError::EmptyWriteChunk));
    assert_eq!(Config { read_len: 0, ..good }.validate(), Err(ConfigError::EmptyRead));
    assert_eq!(Config { file_size: 4095, ..good }.validate(), Err(ConfigError::FirstReadOutOfBounds));
    assert_eq!(Config { file_size: 40960, ..good }.validate(), Err(ConfigError::NearReadOutOfBounds));
    assert_eq!(Config { file_size: 45056, ..good }.validate(), Ok(()));
    assert_eq!(Config { far_stride: 0, ..good }.validate(), Err(ConfigError::ZeroStride));
}

#[test]
fn default_candidates_are_bounded() {
    let c = Config::default_config();
    let cands = far_candidates(&c);
    assert_eq!(cands.len(), 156);
    assert_eq!(cands[0], 100 * 512 * 1024);
    assert_eq!(cands[155], 255 * 512 * 1024);
    for w in cands.windows(2) {
        assert_eq!(w[1] - w[0], 512 * 1024);
    }
    for o in &cands {
        assert!(o + 4096 <= DEFAULT_FILE_SIZE);
    }
}

#[test]
fn candidates_stop_where_reads_no_longer_fit() {
    let c = small_config(1024 * 1024);
    assert_eq!(far_candidates(&c), vec![0, 524288]);
    let exact = small_config(524288 + 4096);
    assert_eq!(far_candidates(&exact), vec![0, 524288]);
    let short = small_config(524288 + 4095);
    assert_eq!(far_candidates(&short), vec![0]);
    let empty_range = Config { far_first: 5, far_end: 5, ..c };
    assert_eq!(far_candidates(&empty_range), Vec::<u64>::new());
    let beyond = Config { far_first: 3, far_end: 10, ..c };
    assert_eq!(far_candidates(&beyond), Vec::<u64>::new());
}

#[test]
fn far_sampling_scenario() {
    let c = Config::default_config();
    let cands = far_candidates(&c);
    let base = 100 * 512 * 1024;
    for _ in 0..50 {
        let picked = pick_far_offsets(&c);
        assert_eq!(picked.len(), 2);
        assert_ne!(picked[0], picked[1]);
        for o in &picked {
            assert!(cands.contains(o));
            assert!(*o >= base && *o <= DEFAULT_FILE_SIZE - 4096);
        }
    }
}

#[test]
fn far_sampling_is_shuffled() {
    let c = Config::default_config();
    let cands = far_candidates(&c);
    let sorted_prefix = vec![cands[0], cands[1]];
    let mut moved = false;
    for _ in 0..20 {
        if pick_far_offsets(&c) != sorted_prefix {
            moved = true;
        }
    }
    assert!(moved);
}

#[test]
fn far_sampling_takes_all_when_few() {
    let c = Config { far_samples: 5, ..small_config(1024 * 1024) };
    let mut picked = pick_far_offsets(&c);
    assert_eq!(picked.len(), 2);
    picked.sort();
    assert_eq!(picked, vec![0, 524288]);
}

#[test]
fn take_samples_prefix() {
    let v = vec![9, 4, 7];
    assert_eq!(take_samples(&v, 2), vec![9, 4]);
    assert_eq!(take_samples(&v, 0), Vec::<u64>::new());
    assert_eq!(take_samples(&v, 10), vec![9, 4, 7]);
}

#[test]
fn creation_plan_skips_existing() {
    assert_eq!(files_to_create(&vec![true, false, true, false]), vec![1, 3]);
    assert_eq!(files_to_create(&vec![]), Vec::<u32>::new());
}

#[test]
fn existing_population_needs_no_writes() {
    let exists = vec![true; 3];
    assert_eq!(files_to_create(&exists), Vec::<u32>::new());
}

#[test]
fn empty_directory_gets_five_files_once() {
    let mut exists = vec![false; 5];
    let plan = files_to_create(&exists);
    assert_eq!(plan, vec![0, 1, 2, 3, 4]);
    let file_size = 1024 * 1024;
    for i in &plan {
        let writes = write_all(file_size, 1024 * 1024 / 3);
        assert_eq!(writes.iter().sum::<u64>(), file_size);
        exists[*i as usize] = true;
    }
    assert_eq!(files_to_create(&exists), Vec::<u32>::new());
}

#[test]
fn writes_fill_file_exactly() {
    assert_eq!(write_all(10, 4), vec![4, 4, 2]);
    assert_eq!(write_all(8, 4), vec![4, 4]);
    assert_eq!(write_all(0, 4), Vec::<u64>::new());
    assert_eq!(write_all(3, 4), vec![3]);
    let default_writes = write_all(DEFAULT_FILE_SIZE, 1024 * 1024);
    assert_eq!(default_writes.len(), 200);
    assert_eq!(next_write_len(10, 4, 10), 0);
    assert_eq!(next_write_len(10, 4, 12), 0);
}

#[test]
fn fixture_names_by_index() {
    let names = file_names(3);
    assert_eq!(names, vec!["0.data".to_string(), "1.data".to_string(), "2.data".to_string()]);
    let all = file_names(128);
    assert_eq!(all.len(), 128);
    assert_eq!(all[127], "127.data");
    assert_eq!(file_names(0), Vec::<String>::new());
}

#[test]
fn fixture_name_of_one_index() {
    assert_eq!(format_file_name(0), "0.data");
    assert_eq!(format_file_name(42), "42.data");
    assert_eq!(format_file_name(u32::MAX), "4294967295.data");
}
