use audio_lab::data::real_data::RealData;
use audio_lab::data::DataError;
use audio_lab::grid::{SampleGrid, SampleLine};

fn line(v: &[f64]) -> SampleLine {
    SampleLine::from_vec(v.iter().map(|x| x.to_bits()).collect())
}

fn table(rows: &[&[f64]]) -> SampleGrid {
    let width = rows.first().map_or(0, |r| r.len());
    let bits: Vec<Vec<u64>> = rows.iter().map(|r| r.iter().map(|v| v.to_bits()).collect()).collect();
    SampleGrid::from_rows(&bits, width).unwrap()
}

fn nums(v: Vec<u64>) -> Vec<f64> {
    v.into_iter().map(f64::from_bits).collect()
}

fn table_nums(g: &SampleGrid) -> Vec<Vec<f64>> {
    g.to_rows().into_iter().map(nums).collect()
}

fn pair(p: (u64, u64)) -> (f64, f64) {
    (f64::from_bits(p.0), f64::from_bits(p.1))
}

#[test]
fn time_data_errors() {
    let error = RealData::new(line(&[0.0, 1.0, 2.0, 5.0]), table(&[&[0.0, 0.0, 0.0], &[0.0, 0.0, 0.0]])).err();
    assert!(matches!(error, Some(DataError::NotMatching)));

    let error = RealData::new(line(&[0.0, 0.0, 0.0]), table(&[&[0.0, 0.0, 0.0], &[0.0, 0.0, 0.0]])).err();
    assert!(matches!(error, Some(DataError::NotIncreasing)));

    let error = RealData::from_x_data(line(&[0.0, 0.0, 0.0]), 3).err();
    assert!(matches!(error, Some(DataError::NotIncreasing)));
}

#[test]
fn time_data() {
    let data = RealData::zeros(2, 4);
    assert_eq!(nums(data.x_data().to_vec()), vec![0.0, 1.0, 2.0, 3.0]);
    assert_eq!(table_nums(data.y_data()), vec![vec![0.0; 4]; 2]);

    let data = RealData::from_x_data(line(&[0.0, 1.0, 2.0, 3.0]), 2).unwrap();
    assert_eq!(nums(data.x_data().to_vec()), vec![0.0, 1.0, 2.0, 3.0]);
    assert_eq!(table_nums(data.y_data()), vec![vec![0.0; 4]; 2]);

    let x: Vec<f64> = (0..10).map(|v| v as f64 / 10.0).collect();
    let first: Vec<f64> = (0..10).map(|v| v as f64).collect();
    let second: Vec<f64> = (10..20).map(|v| v as f64).collect();
    let mut data = RealData::new(line(&x), table(&[&first, &second])).unwrap();

    assert_eq!(data.comment(), None);
    data.set_comment(Some("This is just test data"));
    assert_eq!(data.comment(), Some("This is just test data"));

    assert_eq!(data.num_channels(), 2);
    assert_eq!(data.num_data_points(), 10);

    assert_eq!(nums(data.x_data().to_vec()), vec![0.0, 0.1, 0.2, 0.3, 0.4, 0.5, 0.6, 0.7, 0.8, 0.9]);
    assert_eq!(
        table_nums(data.y_data()),
        vec![
            vec![0.0, 1.0, 2.0, 3.0, 4.0, 5.0, 6.0, 7.0, 8.0, 9.0],
            vec![10.0, 11.0, 12.0, 13.0, 14.0, 15.0, 16.0, 17.0, 18.0, 19.0]
        ]
    );
    assert_eq!(nums(data.channel(0)), vec![0.0, 1.0, 2.0, 3.0, 4.0, 5.0, 6.0, 7.0, 8.0, 9.0]);
    assert_eq!(nums(data.channel(1)), vec![10.0, 11.0, 12.0, 13.0, 14.0, 15.0, 16.0, 17.0, 18.0, 19.0]);
    for i in 0..data.num_channels() {
        match i {
            0 => assert_eq!(nums(data.channel(i)), vec![0.0, 1.0, 2.0, 3.0, 4.0, 5.0, 6.0, 7.0, 8.0, 9.0]),
            1 => assert_eq!(nums(data.channel(i)), vec![10.0, 11.0, 12.0, 13.0, 14.0, 15.0, 16.0, 17.0, 18.0, 19.0]),
            _ => panic!("Should only have two channels"),
        }
    }
}

#[test]
fn from_y_data_numbers_the_points() {
    let data = RealData::from_y_data(table(&[&[5.0, 6.0, 7.0]]));
    assert_eq!(nums(data.x_data().to_vec()), vec![0.0, 1.0, 2.0]);
    assert_eq!(data.num_channels(), 1);
    let copy = data.clone();
    assert_eq!(nums(copy.channel(0)), vec![5.0, 6.0, 7.0]);
}

#[test]
fn extrema_helpers() {
    let data = RealData::new(
        line(&[0.0, 1.0, 2.0, 3.0, 4.0]),
        table(&[&[0.0, 1.0, 5.0, -11.0, 1.0], &[0.0, -10.0, 0.0, 6.0, 1.0]]),
    )
    .unwrap();

    let maxima: Vec<(f64, f64)> = data.max_per_channel().into_iter().map(pair).collect();
    assert_eq!(maxima, vec![(2.0, 5.0), (3.0, 6.0)]);
    assert_eq!(pair(data.max_overall()), (3.0, 6.0));
    let abs_maxima: Vec<(f64, f64)> = data.max_abs_per_channel().into_iter().map(pair).collect();
    assert_eq!(abs_maxima, vec![(3.0, 11.0), (1.0, 10.0)]);
    assert_eq!(pair(data.max_abs_overall()), (3.0, 11.0));
    let min_max: Vec<((f64, f64), (f64, f64))> =
        data.min_max_per_channel().into_iter().map(|(lo, hi)| (pair(lo), pair(hi))).collect();
    assert_eq!(min_max, vec![((3.0, -11.0), (2.0, 5.0)), ((1.0, -10.0), (3.0, 6.0))]);
    let (lo, hi) = data.min_max_overall();
    assert_eq!((pair(lo), pair(hi)), ((3.0, -11.0), (3.0, 6.0)));
}

#[test]
fn ties_keep_the_last_maximum_and_the_first_minimum() {
    let data = RealData::new(line(&[0.0, 1.0, 2.0, 3.0]), table(&[&[2.0, -1.0, 2.0, -1.0]])).unwrap();
    assert_eq!(pair(data.max_overall()), (2.0, 2.0));
    let (lo, hi) = data.min_max_overall();
    assert_eq!((pair(lo), pair(hi)), ((1.0, -1.0), (2.0, 2.0)));
    let abs = RealData::new(line(&[0.0, 1.0]), table(&[&[-3.0, 3.0]])).unwrap();
    assert_eq!(pair(abs.max_abs_overall()), (1.0, 3.0));
}

#[test]
fn data_error_messages() {
    assert_eq!(DataError::NotMatching.message(), "x data has not the same length as y data");
    assert_eq!(DataError::NotIncreasing.message(), "x data is not increasing");
}
