use toolbox::dir_size::{run, SizedFile};

fn sized(sizes: &[u64]) -> Vec<SizedFile> {
    let mut files = Vec::new();
    for (i, size) in sizes.iter().enumerate() {
        files.push(SizedFile { size: *size, path: format!("file{}", i) });
    }
    files
}

#[test]
fn top_two_of_three_are_the_largest_in_order() {
    let files = sized(&[10, 5, 20]);
    let picked = run(&files, 2);
    assert_eq!(picked, vec![2, 0]);
    assert_eq!(files[picked[0]].size, 20);
    assert_eq!(files[picked[1]].size, 10);
}

#[test]
fn a_count_past_the_end_returns_every_file() {
    let files = sized(&[10, 5, 20]);
    assert_eq!(run(&files, 10), vec![2, 0, 1]);
    assert_eq!(run(&files, 3), vec![2, 0, 1]);
    assert_eq!(run(&files, usize::MAX), vec![2, 0, 1]);
}

#[test]
fn a_count_of_zero_returns_nothing() {
    let files = sized(&[10, 5, 20]);
    assert_eq!(run(&files, 0), Vec::<usize>::new());
}

#[test]
fn no_files_give_no_ranking() {
    let files = sized(&[]);
    assert_eq!(run(&files, 5), Vec::<usize>::new());
}

#[test]
fn files_of_equal_size_keep_their_order() {
    let files = sized(&[7, 9, 7, 9, 7, 1, 9]);
    assert_eq!(run(&files, 7), vec![1, 3, 6, 0, 2, 4, 5]);
    assert_eq!(run(&files, 4), vec![1, 3, 6, 0]);
}

#[test]
fn a_single_file_is_its_own_ranking() {
    let files = sized(&[42]);
    assert_eq!(run(&files, 1), vec![0]);
}

#[test]
fn a_long_listing_is_ranked_like_a_stable_sort() {
    let mut sizes = Vec::new();
    let mut seed: u64 = 12345;
    for _ in 0..500 {
        seed = seed.wrapping_mul(6364136223846793005).wrapping_add(1442695040888963407);
        sizes.push((seed >> 33) % 50);
    }
    let files = sized(&sizes);
    let mut expected: Vec<usize> = (0..sizes.len()).collect();
    expected.sort_by(|a, b| sizes[*b].cmp(&sizes[*a]));
    assert_eq!(run(&files, 500), expected);
    assert_eq!(run(&files, 37), expected[..37].to_vec());
}

#[test]
fn the_extremes_of_the_size_range_are_ordered() {
    let files = sized(&[0, u64::MAX, 1, u64::MAX - 1]);
    assert_eq!(run(&files, 4), vec![1, 3, 2, 0]);
}
