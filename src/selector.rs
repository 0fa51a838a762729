//! Choosing a disc's main features: titles with an audio stream in an allowed
//! language whose duration is within ten percent of a reference runtime.

use vstd::prelude::*;
use crate::model::{AudioStream, Disc, DiscView, Title, TitleView};
use crate::protocol::views;
use crate::text::same_text;

verus! {

/// Whether `duration` lies in `[0.9 * runtime, 1.1 * runtime]`, bounds included.
pub open spec fn within_tolerance(duration: int, runtime: int) -> bool {
    10 * duration >= 9 * runtime && 10 * duration <= 11 * runtime
}

/// Whether some audio stream of `t` has a language code in `langs`.
pub open spec fn speaks_any(t: TitleView, langs: Seq<Seq<char>>) -> bool {
    exists|i: int| 0 <= i < t.audio_streams.len() && langs.contains(#[trigger] t.audio_streams[i].lang_code)
}

/// Whether the duration of `t` is within tolerance of some runtime (seconds).
pub open spec fn fits_any(t: TitleView, runtimes: Seq<u64>) -> bool {
    exists|j: int| 0 <= j < runtimes.len() && within_tolerance(t.duration as int, #[trigger] runtimes[j] as int)
}

/// Whether `t` is a main-feature candidate.
pub open spec fn is_main_feature(t: TitleView, runtimes: Seq<u64>, langs: Seq<Seq<char>>) -> bool {
    speaks_any(t, langs) && fits_any(t, runtimes)
}

/// The candidates among `ts`, in their order.
pub open spec fn select(ts: Seq<TitleView>, runtimes: Seq<u64>, langs: Seq<Seq<char>>) -> Seq<TitleView>
    decreases ts.len(),
{
    if ts.len() == 0 {
        Seq::empty()
    } else {
        let rest = select(ts.drop_last(), runtimes, langs);
        if is_main_feature(ts.last(), runtimes, langs) {
            rest.push(ts.last())
        } else {
            rest
        }
    }
}

/// Tests whether `duration` is within ten percent of `runtime`.
pub fn duration_matches(duration: u32, runtime: u64) -> (r: bool)
    ensures
        r == within_tolerance(duration as int, runtime as int),
{
    let d = duration as u128;
    let rt = runtime as u128;
    10 * d >= 9 * rt && 10 * d <= 11 * rt
}

/// Tests whether `code` is one of `langs`.
pub fn language_allowed(code: &String, langs: &Vec<String>) -> (r: bool)
    ensures
        r == views(langs@).contains(code@),
{
    let mut i: usize = 0;
    while i < langs.len()
        invariant
            i <= langs@.len(),
            forall|j: int| 0 <= j < i ==> langs@[j]@ != code@,
        decreases langs@.len() - i,
    {
        if same_text(langs[i].as_str(), code.as_str()) {
            assert(views(langs@)[i as int] == code@);
            return true;
        }
        i = i + 1;
    }
    assert(!views(langs@).contains(code@)) by {
        if views(langs@).contains(code@) {
            let k = choose|k: int| 0 <= k < views(langs@).len() && views(langs@)[k] == code@;
            assert(langs@[k]@ == code@);
        }
    }
    false
}

/// Tests whether some audio stream of `t` has a language code in `langs`.
pub fn speaks_allowed_language(t: &Title, langs: &Vec<String>) -> (r: bool)
    ensures
        r == speaks_any(t@, views(langs@)),
{
    let mut i: usize = 0;
    while i < t.audio_streams.len()
        invariant
            i <= t.audio_streams@.len(),
            t@.audio_streams == t.audio_streams@.map_values(|a: AudioStream| a@),
            forall|k: int| 0 <= k < i ==> !views(langs@).contains(#[trigger] t@.audio_streams[k].lang_code),
        decreases t.audio_streams@.len() - i,
    {
        if language_allowed(&t.audio_streams[i].lang_code, langs) {
            assert(views(langs@).contains(t@.audio_streams[i as int].lang_code));
            return true;
        }
        i = i + 1;
    }
    false
}

/// Tests whether a title is a main-feature candidate: some audio stream in an
/// allowed language, and a duration within ten percent of some runtime.
pub fn is_main_feature_title(t: &Title, runtimes: &Vec<u64>, langs: &Vec<String>) -> (r: bool)
    ensures
        r == is_main_feature(t@, runtimes@, views(langs@)),
{
    if !speaks_allowed_language(t, langs) {
        return false;
    }
    let mut j: usize = 0;
    while j < runtimes.len()
        invariant
            j <= runtimes@.len(),
            speaks_any(t@, views(langs@)),
            forall|k: int| 0 <= k < j ==> !within_tolerance(t@.duration as int, #[trigger] runtimes@[k] as int),
        decreases runtimes@.len() - j,
    {
        if duration_matches(t.duration, runtimes[j]) {
            return true;
        }
        j = j + 1;
    }
    false
}

/// The disc narrowed to its main-feature candidates: titles with an audio
/// stream whose language is in `langs`, and whose duration is within ten
/// percent of at least one of `runtimes` (in seconds). The input is left as
/// it is; the candidates keep their order.
pub fn filter_main_features(disc: &Disc, runtimes: &Vec<u64>, langs: &Vec<String>) -> (r: Disc)
    ensures
        r@ == (DiscView { titles: select(disc@.titles, runtimes@, views(langs@)), ..disc@ }),
{
    let mut titles: Vec<Title> = Vec::new();
    let mut i: usize = 0;
    while i < disc.titles.len()
        invariant
            i <= disc.titles@.len(),
            disc@.titles == disc.titles@.map_values(|t: Title| t@),
            titles@.map_values(|t: Title| t@) == select(disc@.titles.take(i as int), runtimes@, views(langs@)),
        decreases disc.titles@.len() - i,
    {
        assert(disc@.titles.take(i + 1).drop_last() =~= disc@.titles.take(i as int));
        if is_main_feature_title(&disc.titles[i], runtimes, langs) {
            let ghost before = titles@.map_values(|t: Title| t@);
            let t = disc.titles[i].clone();
            titles.push(t);
            assert(titles@.map_values(|t: Title| t@) =~= before.push(disc@.titles[i as int]));
        }
        i = i + 1;
    }
    assert(disc@.titles.take(disc.titles@.len() as int) =~= disc@.titles);
    Disc {
        disc_type: disc.disc_type.clone(),
        name: disc.name.clone(),
        metadata_language_code: disc.metadata_language_code.clone(),
        metadata_language_name: disc.metadata_language_name.clone(),
        tree_info: disc.tree_info.clone(),
        panel_title: disc.panel_title.clone(),
        volume_name: disc.volume_name.clone(),
        order_weight: disc.order_weight,
        titles,
    }
}

/// Narrows the disc to the main features of a movie whose runtime is
/// `runtime_minutes`.
pub fn filter_movie_main_features(disc: &Disc, langs: &Vec<String>, runtime_minutes: u32) -> (r: Disc)
    ensures
        r@ == (DiscView { titles: select(disc@.titles, seq![(runtime_minutes as int * 60) as u64], views(langs@)), ..disc@ }),
{
    let mut runtimes: Vec<u64> = Vec::new();
    runtimes.push(runtime_minutes as u64 * 60);
    assert(runtimes@ =~= seq![(runtime_minutes as int * 60) as u64]);
    filter_main_features(disc, &runtimes, langs)
}

/// One episode of a season as the metadata service lists it.
#[derive(Debug, Clone, Copy, PartialEq, Eq)]
pub struct EpisodeRuntime {
    pub episode_number: u16,
    /// Runtime in minutes, where the service knows it.
    pub runtime: Option<u32>,
}

/// Why a TV selection could not be made.
#[derive(Debug, Clone, Copy, PartialEq, Eq)]
pub enum SelectError {
    /// The requested season is not among the series' seasons.
    SeasonNotFound,
}

/// The runtime of an episode in seconds; an unknown runtime counts as 0.
pub open spec fn episode_seconds(e: EpisodeRuntime) -> u64 {
    match e.runtime {
        Some(m) => (m as int * 60) as u64,
        None => 0,
    }
}

/// The runtimes in seconds of those of `eps` whose number is in `wanted`, in
/// their order.
pub open spec fn wanted_runtimes(eps: Seq<EpisodeRuntime>, wanted: Seq<u16>) -> Seq<u64>
    decreases eps.len(),
{
    if eps.len() == 0 {
        Seq::empty()
    } else {
        let rest = wanted_runtimes(eps.drop_last(), wanted);
        if wanted.contains(eps.last().episode_number) {
            rest.push(episode_seconds(eps.last()))
        } else {
            rest
        }
    }
}

fn contains_u16(v: &Vec<u16>, x: u16) -> (r: bool)
    ensures
        r == v@.contains(x),
{
    let mut i: usize = 0;
    while i < v.len()
        invariant
            i <= v@.len(),
            forall|j: int| 0 <= j < i ==> v@[j] != x,
        decreases v@.len() - i,
    {
        if v[i] == x {
            return true;
        }
        i = i + 1;
    }
    false
}

/// The runtimes in seconds of the wanted episodes of one season.
pub fn episode_runtimes(eps: &Vec<EpisodeRuntime>, wanted: &Vec<u16>) -> (r: Vec<u64>)
    ensures
        r@ == wanted_runtimes(eps@, wanted@),
{
    let mut r: Vec<u64> = Vec::new();
    let mut i: usize = 0;
    while i < eps.len()
        invariant
            i <= eps@.len(),
            r@ == wanted_runtimes(eps@.take(i as int), wanted@),
        decreases eps@.len() - i,
    {
        assert(eps@.take(i + 1).drop_last() =~= eps@.take(i as int));
        let e = eps[i];
        if contains_u16(wanted, e.episode_number) {
            let secs: u64 = match e.runtime {
                Some(m) => m as u64 * 60,
                None => 0,
            };
            r.push(secs);
        }
        i = i + 1;
    }
    assert(eps@.take(eps@.len() as int) =~= eps@);
    r
}

/// Narrows the disc to the episodes `episodes` of season `season` (counted
/// from 1) of a series whose seasons are `seasons`: a title qualifies where
/// its duration is within ten percent of any one of those episodes' runtimes.
pub fn filter_tv_series_main_features(
    disc: &Disc,
    langs: &Vec<String>,
    seasons: &Vec<Vec<EpisodeRuntime>>,
    season: u16,
    episodes: &Vec<u16>,
) -> (r: Result<Disc, SelectError>)
    ensures
        season == 0 || season as int > seasons@.len() ==> r == Err::<Disc, SelectError>(SelectError::SeasonNotFound),
        1 <= season <= seasons@.len() ==> r is Ok && r->Ok_0@ == (DiscView {
            titles: select(disc@.titles, wanted_runtimes(seasons@[season - 1]@, episodes@), views(langs@)),
            ..disc@
        }),
{
    if season == 0 || season as usize > seasons.len() {
        return Err(SelectError::SeasonNotFound);
    }
    let runtimes = episode_runtimes(&seasons[(season - 1) as usize], episodes);
    Ok(filter_main_features(disc, &runtimes, langs))
}

/// A title whose duration is exactly nine or eleven tenths of a reference
/// runtime is within tolerance of it: both bounds are included.
pub proof fn lemma_tolerance_bounds_included(t: TitleView, runtime: u64, langs: Seq<Seq<char>>)
    requires
        10 * t.duration == 9 * runtime || 10 * t.duration == 11 * runtime,
    ensures
        fits_any(t, seq![runtime]),
        speaks_any(t, langs) ==> is_main_feature(t, seq![runtime], langs),
{
    assert(within_tolerance(t.duration as int, seq![runtime][0] as int));
}

/// A title without audio streams is never a main feature, whatever its
/// duration.
pub proof fn lemma_no_audio_never_selected(t: TitleView, runtimes: Seq<u64>, langs: Seq<Seq<char>>)
    requires
        t.audio_streams.len() == 0,
    ensures
        !is_main_feature(t, runtimes, langs),
{
}

/// Selection keeps exactly the candidates: every title it returns is one, and
/// the candidates are returned in the order of the input.
pub proof fn lemma_select_keeps_candidates(ts: Seq<TitleView>, runtimes: Seq<u64>, langs: Seq<Seq<char>>)
    ensures
        forall|i: int| 0 <= i < select(ts, runtimes, langs).len()
            ==> is_main_feature(#[trigger] select(ts, runtimes, langs)[i], runtimes, langs),
        select(ts, runtimes, langs) == ts.filter(|t: TitleView| is_main_feature(t, runtimes, langs)),
    decreases ts.len(),
{
    if ts.len() > 0 {
        lemma_select_keeps_candidates(ts.drop_last(), runtimes, langs);
        assert(ts.drop_last().push(ts.last()) =~= ts);
        ts.drop_last().lemma_filter_push(ts.last(), |t: TitleView| is_main_feature(t, runtimes, langs));
    } else {
        assert(ts.filter(|t: TitleView| is_main_feature(t, runtimes, langs)) =~= Seq::<TitleView>::empty());
    }
}

} // verus!
