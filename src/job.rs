//! A ripping job: what the client asks for, the titles it names, and where
//! their files go on the way from disc to library.

use vstd::prelude::*;
use crate::encode::{encoded_path, encoded_path_of};
use crate::model::{Disc, Title, TitleView};
use crate::protocol::views;
use crate::text::{join, join_path, owned, padded_decimal, padded_decimal_text, same_text};

verus! {

/// The parameters of a job: the drive, the titles to rip, the encoding
/// profile, where the library keeps it and what it is.
pub struct RipPayload {
    pub device: String,
    pub titles: Vec<usize>,
    pub encoding_profile: String,
    pub quality_profile: u32,
    pub root_folder: String,
    pub media_type: String,
    pub metadata: String,
}

/// What a movie job knows of the movie.
pub struct RipMovieMetadata {
    pub tmdb_id: u32,
    pub title: String,
}

/// What a TV job knows of the show: the season, and the episode that each
/// ripped title is, in order.
pub struct RipTvShowMetadata {
    pub tvdb_id: u32,
    pub title: String,
    pub series_type: String,
    pub season: u32,
    pub episodes: Vec<u32>,
}

/// A request for a movie disc's main features.
pub struct MovieTitlesPayload {
    pub langs: Vec<String>,
    pub tmdb_id: u32,
    pub device: String,
}

/// A request for a TV disc's main features for some episodes of a season.
pub struct TvShowTitlesPayload {
    pub langs: Vec<String>,
    pub tmdb_id: u32,
    pub device: String,
    pub season: u16,
    pub episodes: Vec<u32>,
}

/// What a job rips.
#[derive(Debug, Clone, Copy, PartialEq, Eq)]
pub enum MediaKind {
    Movie,
    TvShow,
}

/// The media kind that a job's `media_type` names, if any.
pub open spec fn media_kind_of(s: Seq<char>) -> Option<MediaKind> {
    if s == seq!['m', 'o', 'v', 'i', 'e'] {
        Some(MediaKind::Movie)
    } else if s == seq!['t', 'v', '_', 's', 'h', 'o', 'w'] {
        Some(MediaKind::TvShow)
    } else {
        None
    }
}

/// Reads a job's media type: `movie` or `tv_show`.
pub fn media_kind(media_type: &str) -> (r: Option<MediaKind>)
    ensures
        r == media_kind_of(media_type@),
{
    let m = "movie";
    let t = "tv_show";
    proof {
        reveal_strlit("movie");
        reveal_strlit("tv_show");
        assert(m@ =~= seq!['m', 'o', 'v', 'i', 'e']);
        assert(t@ =~= seq!['t', 'v', '_', 's', 'h', 'o', 'w']);
    }
    if same_text(media_type, m) {
        Some(MediaKind::Movie)
    } else if same_text(media_type, t) {
        Some(MediaKind::TvShow)
    } else {
        None
    }
}

/// Why a job cannot go ahead.
#[derive(Debug, Clone, Copy, PartialEq, Eq)]
pub enum JobError {
    /// The disc has no title with this id.
    UnknownTitle(usize),
    /// A TV job has more ripped files than episodes to name them.
    MissingEpisode(usize),
}

/// Whether the disc has a title with id `id`.
pub open spec fn has_title(ts: Seq<TitleView>, id: usize) -> bool {
    exists|i: int| 0 <= i < ts.len() && (#[trigger] ts[i]).id == id
}

/// The position of a title with id `id`, if there is one.
pub fn find_title(titles: &Vec<Title>, id: usize) -> (r: Option<usize>)
    ensures
        match r {
            Some(i) => i < titles@.len() && titles@[i as int].id == id,
            None => forall|j: int| 0 <= j < titles@.len() ==> (#[trigger] titles@[j]).id != id,
        },
{
    let mut i: usize = 0;
    while i < titles.len()
        invariant
            i <= titles@.len(),
            forall|j: int| 0 <= j < i ==> (#[trigger] titles@[j]).id != id,
        decreases titles@.len() - i,
    {
        if titles[i].id == id {
            return Some(i);
        }
        i = i + 1;
    }
    None
}

/// The titles of a disc that a job names, in the job's order; an error
/// names the first id that the disc lacks.
pub fn select_titles(disc: &Disc, ids: &Vec<usize>) -> (r: Result<Vec<Title>, JobError>)
    ensures
        r is Ok <==> forall|k: int| 0 <= k < ids@.len() ==> has_title(disc@.titles, #[trigger] ids@[k]),
        r is Ok ==> r->Ok_0@.len() == ids@.len() && forall|k: int| 0 <= k < ids@.len() ==>
            (#[trigger] r->Ok_0@[k])@.id == ids@[k] && disc@.titles.contains(r->Ok_0@[k]@),
        r is Err ==> exists|k: int| 0 <= k < ids@.len() && r->Err_0 == JobError::UnknownTitle(#[trigger] ids@[k])
            && !has_title(disc@.titles, ids@[k])
            && forall|m: int| 0 <= m < k ==> has_title(disc@.titles, #[trigger] ids@[m]),
{
    let mut out: Vec<Title> = Vec::new();
    let mut k: usize = 0;
    while k < ids.len()
        invariant
            k <= ids@.len(),
            disc@.titles == disc.titles@.map_values(|t: Title| t@),
            out@.len() == k,
            forall|m: int| 0 <= m < k ==> (#[trigger] out@[m])@.id == ids@[m] && disc@.titles.contains(out@[m]@),
            forall|m: int| 0 <= m < k ==> has_title(disc@.titles, #[trigger] ids@[m]),
        decreases ids@.len() - k,
    {
        let id = ids[k];
        match find_title(&disc.titles, id) {
            Some(i) => {
                let t = disc.titles[i].clone();
                assert(disc@.titles[i as int] == disc.titles@[i as int]@);
                out.push(t);
                assert(has_title(disc@.titles, ids@[k as int]));
            },
            None => {
                assert(!has_title(disc@.titles, id)) by {
                    if has_title(disc@.titles, id) {
                        let i = choose|i: int| 0 <= i < disc@.titles.len() && (#[trigger] disc@.titles[i]).id == id;
                        assert(disc.titles@[i].id == id);
                    }
                }
                return Err(JobError::UnknownTitle(id));
            },
        }
        k = k + 1;
    }
    Ok(out)
}

/// The files that a job's rip and encode stages produce for its titles:
/// each title's ripped file under `output_dir`, then its encoded form.
pub open spec fn job_outputs(output_dir: Seq<char>, titles: Seq<TitleView>) -> Seq<Seq<char>>
    decreases titles.len(),
{
    if titles.len() == 0 {
        Seq::empty()
    } else {
        let name = titles.last().output_file_name;
        job_outputs(output_dir, titles.drop_last())
            .push(join_path(output_dir, name))
            .push(encoded_path_of(output_dir, name))
    }
}

/// The files to delete when a job is cancelled: for every title, its ripped
/// file and its encoded form.
pub fn cleanup_paths(output_dir: &str, titles: &Vec<Title>) -> (r: Vec<String>)
    ensures
        views(r@) == job_outputs(output_dir@, titles@.map_values(|t: Title| t@)),
{
    let ghost ts = titles@.map_values(|t: Title| t@);
    let mut r: Vec<String> = Vec::new();
    let mut i: usize = 0;
    while i < titles.len()
        invariant
            i <= titles@.len(),
            ts == titles@.map_values(|t: Title| t@),
            views(r@) == job_outputs(output_dir@, ts.take(i as int)),
        decreases titles@.len() - i,
    {
        assert(ts.take(i + 1).drop_last() =~= ts.take(i as int));
        let name = titles[i].output_file_name.as_str();
        let ghost before = views(r@);
        let a = join(output_dir, name);
        let b = encoded_path(output_dir, name);
        let ghost av = a@;
        let ghost bv = b@;
        r.push(a);
        r.push(b);
        assert(views(r@) =~= before.push(av).push(bv));
        i = i + 1;
    }
    assert(ts.take(titles@.len() as int) =~= ts);
    r
}

/// Each title's file under `dir`, in order.
pub open spec fn files_under(dir: Seq<char>, titles: Seq<TitleView>) -> Seq<Seq<char>> {
    Seq::new(titles.len(), |i: int| join_path(dir, titles[i].output_file_name))
}

/// The ripped files of a job's titles, which the encode stage reads.
pub fn ripped_files(output_dir: &str, titles: &Vec<Title>) -> (r: Vec<String>)
    ensures
        views(r@) == files_under(output_dir@, titles@.map_values(|t: Title| t@)),
{
    let ghost want = files_under(output_dir@, titles@.map_values(|t: Title| t@));
    let mut r: Vec<String> = Vec::new();
    let mut i: usize = 0;
    while i < titles.len()
        invariant
            i <= titles@.len(),
            want == files_under(output_dir@, titles@.map_values(|t: Title| t@)),
            views(r@) == want.take(i as int),
        decreases titles@.len() - i,
    {
        let ghost before = views(r@);
        let a = join(output_dir, titles[i].output_file_name.as_str());
        let ghost av = a@;
        r.push(a);
        assert(views(r@) =~= before.push(av));
        assert(want.take(i + 1) =~= want.take(i as int).push(want[i as int]));
        i = i + 1;
    }
    assert(want.take(titles@.len() as int) =~= want);
    r
}

/// The marker put before an uploaded file's name.
pub open spec fn release_marker() -> Seq<char> {
    seq!['[', 'B', 'l', 'u', 'r', 'a', 'y', '-', '1', '0', '8', '0', 'p', ']', '_']
}

fn marker() -> (r: String)
    ensures
        r@ == release_marker(),
{
    let m = "[Bluray-1080p]_";
    proof {
        reveal_strlit("[Bluray-1080p]_");
        assert(m@ =~= release_marker());
    }
    owned(m)
}

/// Where a movie's file goes in the library: in the movie's folder, its name
/// after the release marker.
pub fn movie_remote_path(movie_path: &str, file_name: &str) -> (r: String)
    ensures
        r@ == join_path(movie_path@, release_marker() + file_name@),
{
    let mut name = marker();
    name.append(file_name);
    join(movie_path, name.as_str())
}

/// The folder of season `season` in a show's folder.
pub open spec fn season_folder(show_path: Seq<char>, season: u32) -> Seq<char> {
    join_path(show_path, seq!['S', 'e', 'a', 's', 'o', 'n', ' '] + padded_decimal(season as nat, 2))
}

/// The library name of an episode's file.
pub open spec fn episode_file_name(season: u32, episode: u32, file_name: Seq<char>) -> Seq<char> {
    release_marker() + seq!['S'] + padded_decimal(season as nat, 2) + seq!['E'] + padded_decimal(episode as nat, 2)
        + seq!['_'] + file_name
}

/// Where the file of the episode at position `index` of a TV job goes in the
/// library; an error where the job names fewer episodes.
pub fn episode_remote_path(show_path: &str, meta: &RipTvShowMetadata, index: usize, file_name: &str) -> (r: Result<String, JobError>)
    ensures
        index >= meta.episodes@.len() ==> r == Err::<String, JobError>(JobError::MissingEpisode(index)),
        index < meta.episodes@.len() ==> r is Ok && r->Ok_0@ == join_path(
            season_folder(show_path@, meta.season),
            episode_file_name(meta.season, meta.episodes@[index as int], file_name@),
        ),
{
    if index >= meta.episodes.len() {
        return Err(JobError::MissingEpisode(index));
    }
    let episode = meta.episodes[index];
    let season_word = "Season ";
    proof {
        reveal_strlit("Season ");
        assert(season_word@ =~= seq!['S', 'e', 'a', 's', 'o', 'n', ' ']);
    }
    let mut folder_name = owned(season_word);
    let season_text = padded_decimal_text(meta.season as u64, 2);
    folder_name.append(season_text.as_str());
    let folder = join(show_path, folder_name.as_str());
    let mut name = marker();
    let s = "S";
    let e = "E";
    let u = "_";
    proof {
        reveal_strlit("S");
        reveal_strlit("E");
        reveal_strlit("_");
        assert(s@ =~= seq!['S']);
        assert(e@ =~= seq!['E']);
        assert(u@ =~= seq!['_']);
    }
    name.append(s);
    name.append(season_text.as_str());
    name.append(e);
    let episode_text = padded_decimal_text(episode as u64, 2);
    name.append(episode_text.as_str());
    name.append(u);
    name.append(file_name);
    Ok(join(folder.as_str(), name.as_str()))
}

} // verus!
