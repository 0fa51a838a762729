//! The transcoding stage: its encoding profiles, the tool's arguments, and
//! the reading of its progress records.

use vstd::prelude::*;
use crate::protocol::{
    all_digits, digits_value, int_text_value, lemma_split_nonempty, parse_unsigned, split_at_char, split_on, views,
};
use crate::text::{contains, contains_text, join, join_path, owned, remove_char, same_text, trim_text, trimmed, without_char};

verus! {

/// An encoding profile: a preset file of the transcoding tool and the preset
/// in it.
pub struct Profile {
    pub id: String,
    pub label: String,
    pub file_name: String,
    pub preset_name: String,
}

/// The value of a [`Profile`].
pub struct ProfileView {
    pub id: Seq<char>,
    pub label: Seq<char>,
    pub file_name: Seq<char>,
    pub preset_name: Seq<char>,
}

impl View for Profile {
    type V = ProfileView;

    open spec fn view(&self) -> ProfileView {
        ProfileView {
            id: self.id@,
            label: self.label@,
            file_name: self.file_name@,
            preset_name: self.preset_name@,
        }
    }
}

impl Clone for Profile {
    fn clone(&self) -> (r: Profile)
        ensures
            r@ == self@,
    {
        Profile {
            id: self.id.clone(),
            label: self.label.clone(),
            file_name: self.file_name.clone(),
            preset_name: self.preset_name.clone(),
        }
    }
}

/// The profiles of an index with each preset file placed under `base_path`.
pub open spec fn placed_profiles(base_path: Seq<char>, listed: Seq<ProfileView>) -> Seq<ProfileView> {
    Seq::new(listed.len(), |i: int| ProfileView { file_name: join_path(base_path, listed[i].file_name), ..listed[i] })
}

/// The profiles that an index under `profile_base_path` lists, with each
/// preset file name made a path under that directory.
pub fn get_encoding_profiles(profile_base_path: &str, listed: &Vec<Profile>) -> (r: Vec<Profile>)
    ensures
        r@.map_values(|p: Profile| p@) == placed_profiles(profile_base_path@, listed@.map_values(|p: Profile| p@)),
{
    let ghost want = placed_profiles(profile_base_path@, listed@.map_values(|p: Profile| p@));
    let mut r: Vec<Profile> = Vec::new();
    let mut i: usize = 0;
    while i < listed.len()
        invariant
            i <= listed@.len(),
            want == placed_profiles(profile_base_path@, listed@.map_values(|p: Profile| p@)),
            r@.map_values(|p: Profile| p@) == want.take(i as int),
        decreases listed@.len() - i,
    {
        let p = &listed[i];
        let placed = Profile {
            id: p.id.clone(),
            label: p.label.clone(),
            file_name: join(profile_base_path, p.file_name.as_str()),
            preset_name: p.preset_name.clone(),
        };
        let ghost before = r@.map_values(|p: Profile| p@);
        assert(listed@.map_values(|p: Profile| p@)[i as int] == listed@[i as int]@);
        let ghost pv = placed@;
        r.push(placed);
        assert(r@.map_values(|p: Profile| p@) =~= before.push(pv));
        assert(pv == want[i as int]);
        assert(want.take(i + 1) =~= want.take(i as int).push(want[i as int]));
        i = i + 1;
    }
    assert(want.take(listed@.len() as int) =~= want);
    r
}

/// The position of the first profile whose id is `id`, if any.
pub fn find_profile(profiles: &Vec<Profile>, id: &str) -> (r: Option<usize>)
    ensures
        match r {
            Some(i) => i < profiles@.len() && profiles@[i as int].id@ == id@
                && forall|j: int| 0 <= j < i ==> (#[trigger] profiles@[j]).id@ != id@,
            None => forall|j: int| 0 <= j < profiles@.len() ==> (#[trigger] profiles@[j]).id@ != id@,
        },
{
    let mut i: usize = 0;
    while i < profiles.len()
        invariant
            i <= profiles@.len(),
            forall|j: int| 0 <= j < i ==> (#[trigger] profiles@[j]).id@ != id@,
        decreases profiles@.len() - i,
    {
        if same_text(profiles[i].id.as_str(), id) {
            return Some(i);
        }
        i = i + 1;
    }
    None
}

/// Where the encoded form of a ripped file named `file_name` goes: the
/// `encoding` directory under `output_dir`.
pub open spec fn encoded_path_of(output_dir: Seq<char>, file_name: Seq<char>) -> Seq<char> {
    join_path(join_path(output_dir, seq!['e', 'n', 'c', 'o', 'd', 'i', 'n', 'g']), file_name)
}

/// The path of the encoded form of a ripped file.
pub fn encoded_path(output_dir: &str, file_name: &str) -> (r: String)
    ensures
        r@ == encoded_path_of(output_dir@, file_name@),
{
    let sub = "encoding";
    proof {
        reveal_strlit("encoding");
        assert(sub@ =~= seq!['e', 'n', 'c', 'o', 'd', 'i', 'n', 'g']);
    }
    let dir = join(output_dir, sub);
    join(dir.as_str(), file_name)
}

/// The arguments that make the transcoding tool encode `input` into `output`
/// with the preset of `profile`, reporting progress as JSON.
pub fn encode_arguments(input: &str, output: &str, profile: &Profile) -> (r: Vec<String>)
    ensures
        views(r@) == seq![
            "--json"@,
            "--input"@,
            input@,
            "--output"@,
            output@,
            "--preset-import-file"@,
            profile.file_name@,
            "-Z"@,
            profile.preset_name@,
        ],
{
    let mut r: Vec<String> = Vec::new();
    r.push("--json".to_string());
    r.push("--input".to_string());
    r.push(owned(input));
    r.push("--output".to_string());
    r.push(owned(output));
    r.push("--preset-import-file".to_string());
    r.push(profile.file_name.clone());
    r.push("-Z".to_string());
    r.push(profile.preset_name.clone());
    assert(views(r@) =~= seq![
        "--json"@,
        "--input"@,
        input@,
        "--output"@,
        output@,
        "--preset-import-file"@,
        profile.file_name@,
        "-Z"@,
        profile.preset_name@,
    ]);
    r
}

/// Ten to the power `n`.
pub open spec fn pow10(n: nat) -> nat
    decreases n,
{
    if n == 0 {
        1
    } else {
        10 * pow10((n - 1) as nat)
    }
}

/// The largest whole part a progress value may have.
pub const MAX_WHOLE: u64 = 1_000_000_000;

/// A decimal number `w` or `w.f` in millionths, digits of `f` beyond the
/// sixth dropped; `None` where it is not such a number or its whole part
/// exceeds [`MAX_WHOLE`].
pub open spec fn millionths(s: Seq<char>) -> Option<int> {
    let parts = split_on(s, '.');
    let w = int_text_value(parts[0], 0, MAX_WHOLE as int);
    if w is None || parts.len() > 2 {
        None
    } else if parts.len() == 1 {
        Some(w->0 * 1_000_000)
    } else {
        let f = parts[1];
        let k = if f.len() >= 6 {
            6
        } else {
            f.len()
        };
        if f.len() > 0 && all_digits(f) {
            Some(w->0 * 1_000_000 + digits_value(f.take(k as int)) * pow10((6 - k) as nat))
        } else {
            None
        }
    }
}

/// A record of the transcoding tool's progress output.
#[derive(Debug, Clone, Copy, PartialEq, Eq)]
pub enum EncodeLine {
    /// The fraction done, in millionths.
    Progress(u64),
    /// The tool's own estimate of the time left, in seconds.
    Eta(u64),
    /// A record that carries neither.
    Other,
}

/// Why a progress record could not be read.
#[derive(Debug, Clone, Copy, PartialEq, Eq)]
pub enum EncodeError {
    /// The progress value is not a decimal number.
    BadProgress,
    /// The time estimate is not a whole number of seconds.
    BadEta,
}

/// The key of progress records, quotes included.
pub open spec fn progress_key() -> Seq<char> {
    seq!['"', 'P', 'r', 'o', 'g', 'r', 'e', 's', 's', '"']
}

/// The key of time estimate records, quotes included.
pub open spec fn eta_key() -> Seq<char> {
    seq!['"', 'E', 'T', 'A', 'S', 'e', 'c', 'o', 'n', 'd', 's', '"']
}

/// The value text of a record: what follows its last colon, without commas
/// and surrounding white space.
pub open spec fn record_value(line: Seq<char>) -> Seq<char> {
    let parts = split_on(trimmed(line), ':');
    trimmed(without_char(parts.last(), ','))
}

/// What one line of the transcoding tool's output reports.
pub open spec fn encode_line(line: Seq<char>) -> Result<EncodeLine, EncodeError> {
    if contains_text(line, progress_key()) {
        match millionths(record_value(line)) {
            Some(v) => Ok(EncodeLine::Progress(v as u64)),
            None => Err(EncodeError::BadProgress),
        }
    } else if contains_text(line, eta_key()) {
        match int_text_value(record_value(line), 0, u64::MAX as int) {
            Some(v) => Ok(EncodeLine::Eta(v as u64)),
            None => Err(EncodeError::BadEta),
        }
    } else {
        Ok(EncodeLine::Other)
    }
}

proof fn lemma_pow10_small()
    ensures
        pow10(0) == 1,
        pow10(1) == 10,
        pow10(2) == 100,
        pow10(3) == 1000,
        pow10(4) == 10_000,
        pow10(5) == 100_000,
        pow10(6) == 1_000_000,
{
    reveal_with_fuel(pow10, 7);
}

fn value_text(line: &str) -> (r: String)
    ensures
        r@ == record_value(line@),
{
    let t = trim_text(line);
    let parts = split_at_char(t.as_str(), ':');
    proof {
        lemma_split_nonempty(t@, ':');
    }
    let last = &parts[parts.len() - 1];
    let bare = remove_char(last.as_str(), ',');
    trim_text(bare.as_str())
}

/// Reads a decimal number into millionths.
#[verifier::loop_isolation(false)]
pub fn parse_millionths(s: &str) -> (r: Option<u64>)
    ensures
        match millionths(s@) {
            Some(v) => r == Some(v as u64) && v <= u64::MAX,
            None => r is None,
        },
{
    let parts = split_at_char(s, '.');
    proof {
        lemma_split_nonempty(s@, '.');
    }
    let w = match parse_unsigned(parts[0].as_str(), MAX_WHOLE) {
        Some(w) => w,
        None => {
            return None;
        },
    };
    if parts.len() > 2 {
        return None;
    }
    if parts.len() == 1 {
        return Some(w * 1_000_000);
    }
    let f = parts[1].as_str();
    let n = f.unicode_len();
    if n == 0 {
        return None;
    }
    let k: usize = if n >= 6 { 6 } else { n };
    let mut i: usize = 0;
    while i < n
        invariant
            n == f@.len(),
            i <= n,
            forall|j: int| 0 <= j < i ==> crate::protocol::is_digit(#[trigger] f@[j]),
        decreases n - i,
    {
        let c = f.get_char(i);
        if !('0' <= c && c <= '9') {
            assert(!all_digits(f@));
            return None;
        }
        i = i + 1;
    }
    assert(all_digits(f@));
    proof {
        lemma_pow10_small();
    }
    let mut v: u64 = 0;
    let mut j: usize = 0;
    while j < k
        invariant
            k <= n,
            k <= 6,
            n == f@.len(),
            all_digits(f@),
            j <= k,
            v == digits_value(f@.take(j as int)),
            v < pow10(j as nat),
            pow10(0) == 1 && pow10(1) == 10 && pow10(2) == 100 && pow10(3) == 1000,
            pow10(4) == 10_000 && pow10(5) == 100_000 && pow10(6) == 1_000_000,
        decreases k - j,
    {
        assert(f@.take(j + 1).drop_last() =~= f@.take(j as int));
        let c = f.get_char(j);
        assert(crate::protocol::is_digit(f@[j as int]));
        let d = (c as u32 - '0' as u32) as u64;
        assert(v * 10 + d < pow10((j + 1) as nat)) by (nonlinear_arith)
            requires
                v < pow10(j as nat),
                d <= 9,
                pow10((j + 1) as nat) == 10 * pow10(j as nat),
        {
        }
        v = v * 10 + d;
        j = j + 1;
    }
    let mut scale: u64 = 1;
    let mut m: usize = 0;
    while m < 6 - k
        invariant
            k <= 6,
            m <= 6 - k,
            scale == pow10(m as nat),
            pow10(0) == 1 && pow10(1) == 10 && pow10(2) == 100 && pow10(3) == 1000,
            pow10(4) == 10_000 && pow10(5) == 100_000 && pow10(6) == 1_000_000,
        decreases 6 - k - m,
    {
        scale = scale * 10;
        m = m + 1;
    }
    assert(pow10(k as nat) * pow10((6 - k) as nat) == 1_000_000) by {
        if k == 0 {
        } else if k == 1 {
        } else if k == 2 {
        } else if k == 3 {
        } else if k == 4 {
        } else if k == 5 {
        } else {
        }
    }
    assert(v * scale < 1_000_000) by (nonlinear_arith)
        requires
            v < pow10(k as nat),
            scale == pow10((6 - k) as nat),
            pow10(k as nat) * pow10((6 - k) as nat) == 1_000_000,
    {
    }
    Some(w * 1_000_000 + v * scale)
}

/// Reads one line of the transcoding tool's output.
pub fn parse_encode_line(line: &str) -> (r: Result<EncodeLine, EncodeError>)
    ensures
        r == encode_line(line@),
{
    let pk = "\"Progress\"";
    let ek = "\"ETASeconds\"";
    proof {
        reveal_strlit("\"Progress\"");
        reveal_strlit("\"ETASeconds\"");
        assert(pk@ =~= progress_key());
        assert(ek@ =~= eta_key());
    }
    if contains(line, pk) {
        let v = value_text(line);
        match parse_millionths(v.as_str()) {
            Some(p) => Ok(EncodeLine::Progress(p)),
            None => Err(EncodeError::BadProgress),
        }
    } else if contains(line, ek) {
        let v = value_text(line);
        match parse_unsigned(v.as_str(), u64::MAX) {
            Some(e) => Ok(EncodeLine::Eta(e)),
            None => Err(EncodeError::BadEta),
        }
    } else {
        Ok(EncodeLine::Other)
    }
}

} // verus!
