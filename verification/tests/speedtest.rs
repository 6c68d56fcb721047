use arb::speedtest::{summary, Summary};

#[test]
fn summary_of_times() {
    assert_eq!(summary(&vec![5]), Summary { min: 5, median: 5, max: 5 });
    assert_eq!(summary(&vec![9, 1]), Summary { min: 1, median: 9, max: 9 });
    assert_eq!(summary(&vec![3, 1, 2]), Summary { min: 1, median: 2, max: 3 });
    let ten = vec![40, 38, 41, 39, 90, 37, 38, 45, 44, 40];
    assert_eq!(summary(&ten), Summary { min: 37, median: 40, max: 90 });
}

#[test]
fn summary_agrees_with_sorting() {
    let mut x: u128 = 12345;
    for n in 1..40usize {
        let mut times: Vec<u128> = Vec::new();
        for _ in 0..n {
            x = (x * 1103515245 + 12345) % 2147483648;
            times.push(x % 17);
        }
        let s = summary(&times);
        times.sort();
        assert_eq!(s, Summary { min: times[0], median: times[n / 2], max: times[n - 1] });
    }
}
