use autoripper::model::{AudioStream, Disc, Title};
use autoripper::selector::{
    duration_matches, filter_main_features, filter_movie_main_features, filter_tv_series_main_features,
    EpisodeRuntime, SelectError,
};

fn title(id: usize, duration: u32, langs: &[&str]) -> Title {
    let mut t = Title::default();
    t.id = id;
    t.duration = duration;
    for l in langs {
        let mut a = AudioStream::default();
        a.lang_code = l.to_string();
        t.audio_streams.push(a);
    }
    t
}

fn disc(titles: Vec<Title>) -> Disc {
    let mut d = Disc::default();
    d.name = "DISC".to_string();
    d.titles = titles;
    d
}

fn ids(d: &Disc) -> Vec<usize> {
    d.titles.iter().map(|t| t.id).collect()
}

#[test]
fn end_to_end_filter_picks_feature() {
    let d = disc(vec![title(0, 1200, &["eng"]), title(1, 5400, &["eng", "deu"])]);
    let r = filter_main_features(&d, &vec![5400], &vec!["eng".to_string()]);
    assert_eq!(ids(&r), vec![1]);
    assert_eq!(r.name, "DISC");
    assert_eq!(d.titles.len(), 2);
}

#[test]
fn tolerance_bounds_are_inclusive() {
    let d = disc(vec![
        title(0, 899, &["eng"]),
        title(1, 900, &["eng"]),
        title(2, 1000, &["eng"]),
        title(3, 1100, &["eng"]),
        title(4, 1101, &["eng"]),
    ]);
    let r = filter_main_features(&d, &vec![1000], &vec!["eng".to_string()]);
    assert_eq!(ids(&r), vec![1, 2, 3]);
    assert!(duration_matches(900, 1000));
    assert!(duration_matches(1100, 1000));
    assert!(!duration_matches(1101, 1000));
}

#[test]
fn no_audio_is_never_selected() {
    let d = disc(vec![title(0, 1000, &[])]);
    let r = filter_main_features(&d, &vec![1000], &vec!["eng".to_string()]);
    assert!(r.titles.is_empty());
}

#[test]
fn language_must_be_allowed() {
    let d = disc(vec![title(0, 1000, &["fra"]), title(1, 1000, &["fra", "deu"])]);
    let r = filter_main_features(&d, &vec![1000], &vec!["eng".to_string(), "deu".to_string()]);
    assert_eq!(ids(&r), vec![1]);
}

#[test]
fn movie_runtime_is_in_minutes() {
    let d = disc(vec![title(0, 5400, &["eng"]), title(1, 600, &["eng"])]);
    let r = filter_movie_main_features(&d, &vec!["eng".to_string()], 90);
    assert_eq!(ids(&r), vec![0]);
}

#[test]
fn tv_titles_match_any_wanted_episode() {
    let d = disc(vec![title(0, 1320, &["eng"]), title(1, 2700, &["eng"]), title(2, 300, &["eng"])]);
    let season1 = vec![
        EpisodeRuntime { episode_number: 1, runtime: Some(22) },
        EpisodeRuntime { episode_number: 2, runtime: Some(45) },
        EpisodeRuntime { episode_number: 3, runtime: None },
    ];
    let seasons = vec![season1];
    let langs = vec!["eng".to_string()];
    let r = filter_tv_series_main_features(&d, &langs, &seasons, 1, &vec![1, 2]).unwrap();
    assert_eq!(ids(&r), vec![0, 1]);
    let r = filter_tv_series_main_features(&d, &langs, &seasons, 1, &vec![2]).unwrap();
    assert_eq!(ids(&r), vec![1]);
    assert_eq!(filter_tv_series_main_features(&d, &langs, &seasons, 0, &vec![1]).err(), Some(SelectError::SeasonNotFound));
    assert_eq!(filter_tv_series_main_features(&d, &langs, &seasons, 2, &vec![1]).err(), Some(SelectError::SeasonNotFound));
}
