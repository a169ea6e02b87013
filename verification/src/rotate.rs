//! Turning the picked pictures: the turn that a request asks for, the file
//! of each picture, what each outcome of a file is reported as, and the
//! report of a finished run. The caller reads and writes the files.
use vstd::prelude::*;
use vstd::string::*;
use image::DynamicImage;
use little_exif::metadata::Metadata;
use crate::imaging::{rotate_quarter, rotate_half, rotate_three_quarters, set_orientation, orientation_tag, tags_besides_orientation, quarter_turn,
    three_quarter_turn, half_turn};
use crate::text::{decimal, signed_decimal, format_i32, format_u64};

verus! {

/// A turn of a picture.
#[derive(Debug, Clone, Copy, PartialEq, Eq, Structural)]
pub enum Rotation {
    /// A quarter turn clockwise.
    Clockwise,
    /// A quarter turn counterclockwise.
    CounterClockwise,
    /// A half turn.
    HalfTurn,
}

/// The turn that a request code asks for: 0 clockwise, 1 counterclockwise,
/// 2 a half turn; other codes ask for none.
pub open spec fn rotation_of(rottype: int) -> Option<Rotation> {
    if rottype == 0 {
        Some(Rotation::Clockwise)
    } else if rottype == 1 {
        Some(Rotation::CounterClockwise)
    } else if rottype == 2 {
        Some(Rotation::HalfTurn)
    } else {
        None
    }
}

/// The message for a request code that asks for no turn.
pub open spec fn invalid_rotation_message(rottype: int) -> Seq<char> {
    "********* invalid rottype of "@ + signed_decimal(rottype) + " **********"@
}

/// The file of picture `name` in directory `dir`.
pub open spec fn picture_path(dir: Seq<char>, name: Seq<char>) -> Seq<char> {
    dir + "/"@ + name
}

/// The work of a turning run: the turn, and the file of each picture in the
/// order the pictures were given.
pub struct RotatePlan {
    pub rotation: Rotation,
    pub paths: Vec<String>,
}

/// The file of picture `name` in directory `dir`, joined with a slash.
pub fn picture_file(dir: &String, name: &String) -> (r: String)
    ensures
        r@ == picture_path(dir@, name@),
{
    let mut p = dir.clone();
    p.append("/");
    p.append(name.as_str());
    p
}

/// Plans the turning of `listofimages` in `dir_value`: a request code that
/// asks for no turn is refused with error code 1; otherwise the plan holds
/// the turn and the file of each picture.
pub fn rotateit(dir_value: &String, listofimages: &Vec<String>, rottype: i32) -> (r: Result<RotatePlan, (u32, String)>)
    ensures
        rotation_of(rottype as int) is None <==> r is Err,
        r matches Err((c, m)) ==> c == 1 && m@ == invalid_rotation_message(rottype as int),
        r matches Ok(plan) ==> {
            &&& rotation_of(rottype as int) == Some(plan.rotation)
            &&& plan.paths.len() == listofimages.len()
            &&& forall|i: int| 0 <= i < listofimages.len() ==> #[trigger] plan.paths@[i]@ == picture_path(dir_value@, listofimages@[i]@)
        },
{
    let rotation = if rottype == 0 {
        Rotation::Clockwise
    } else if rottype == 1 {
        Rotation::CounterClockwise
    } else if rottype == 2 {
        Rotation::HalfTurn
    } else {
        let mut msg = String::from_str("********* invalid rottype of ");
        let t = format_i32(rottype);
        msg.append(t.as_str());
        msg.append(" **********");
        assert(msg@ =~= invalid_rotation_message(rottype as int));
        return Err((1, msg));
    };
    let n = listofimages.len();
    let mut paths: Vec<String> = Vec::new();
    let mut i: usize = 0;
    while i < n
        invariant
            n == listofimages.len(),
            i <= n,
            paths.len() == i,
            forall|k: int| 0 <= k < i ==> #[trigger] paths@[k]@ == picture_path(dir_value@, listofimages@[k]@),
        decreases n - i,
    {
        let p = picture_file(dir_value, &listofimages[i]);
        paths.push(p);
        i = i + 1;
    }
    Ok(RotatePlan { rotation, paths })
}

/// `after` is `before` turned as `rotation` says.
pub open spec fn turned(before: DynamicImage, after: DynamicImage, rotation: Rotation) -> bool {
    match rotation {
        Rotation::Clockwise => quarter_turn(before, after),
        Rotation::CounterClockwise => three_quarter_turn(before, after),
        Rotation::HalfTurn => half_turn(before, after),
    }
}

/// Turns the decoded picture `img` as `rotation` says, with the picture
/// crate's `rotate90` (clockwise), `rotate270` (counterclockwise) or
/// `rotate180` (half turn).
pub fn apply_rotation(img: &DynamicImage, rotation: Rotation) -> (r: DynamicImage)
    ensures
        turned(*img, r, rotation),
{
    match rotation {
        Rotation::Clockwise => rotate_quarter(img),
        Rotation::CounterClockwise => rotate_three_quarters(img),
        Rotation::HalfTurn => rotate_half(img),
    }
}

/// The metadata to write back after a turn: where the file's metadata could
/// be read, it with the Orientation tag set to upright (the value 1) and all
/// other tags kept; otherwise none.
pub fn upright_metadata(read: Option<Metadata>) -> (r: Option<Metadata>)
    ensures
        r is Some <==> read is Some,
        r matches Some(m) ==> orientation_tag(m) == Some(seq![1u16]),
        r matches Some(m) ==> tags_besides_orientation(m) == tags_besides_orientation(read->0),
{
    match read {
        Some(mut meta) => {
            let upright: Vec<u16> = vec![1u16];
            set_orientation(&mut meta, upright);
            Some(meta)
        },
        None => None,
    }
}

/// What became of one file of a turning run.
pub enum FileOutcome {
    /// The file does not exist.
    Missing,
    /// The file could not be decoded; the decoder's error text.
    OpenFailed(String),
    /// The turned picture could not be saved; the encoder's error text.
    SaveFailed(String),
    /// The metadata could not be written back; the writer's error text.
    MetadataFailed(String),
    /// The file was turned and saved.
    Rotated,
}

/// The report for one file: `None` where the run goes on, otherwise the error
/// code and message that end the run.
pub open spec fn file_outcome_report(path: Seq<char>, outcome: FileOutcome) -> Option<(u32, Seq<char>)> {
    match outcome {
        FileOutcome::Missing => Some(
            (2u32, "********* rotate ERROR file: "@ + path + " does not exist **********"@),
        ),
        FileOutcome::OpenFailed(e) => Some(
            (5u32, "Failure to open image file: "@ + path + "  error: "@ + e@),
        ),
        FileOutcome::SaveFailed(e) => Some((4u32, "Failure to save file: "@ + path + "  error: "@ + e@)),
        FileOutcome::MetadataFailed(e) => Some(
            (3u32, "Failure to save metadata for file: "@ + path + " error: "@ + e@),
        ),
        FileOutcome::Rotated => None,
    }
}

/// The report for one file of a turning run.
pub fn file_report(path: &String, outcome: &FileOutcome) -> (r: Option<(u32, String)>)
    ensures
        match (r, file_outcome_report(path@, *outcome)) {
            (None, None) => true,
            (Some((c, m)), Some((sc, sm))) => c == sc && m@ == sm,
            _ => false,
        },
{
    let ghost spec_outcome = *outcome;
    match outcome {
        FileOutcome::Missing => {
            let mut m = String::from_str("********* rotate ERROR file: ");
            m.append(path.as_str());
            m.append(" does not exist **********");
            assert(m@ =~= (file_outcome_report(path@, spec_outcome)->0).1);
            Some((2, m))
        },
        FileOutcome::OpenFailed(e) => {
            let mut m = String::from_str("Failure to open image file: ");
            m.append(path.as_str());
            m.append("  error: ");
            m.append(e.as_str());
            assert(m@ =~= (file_outcome_report(path@, spec_outcome)->0).1);
            Some((5, m))
        },
        FileOutcome::SaveFailed(e) => {
            let mut m = String::from_str("Failure to save file: ");
            m.append(path.as_str());
            m.append("  error: ");
            m.append(e.as_str());
            assert(m@ =~= (file_outcome_report(path@, spec_outcome)->0).1);
            Some((4, m))
        },
        FileOutcome::MetadataFailed(e) => {
            let mut m = String::from_str("Failure to save metadata for file: ");
            m.append(path.as_str());
            m.append(" error: ");
            m.append(e.as_str());
            assert(m@ =~= (file_outcome_report(path@, spec_outcome)->0).1);
            Some((3, m))
        },
        FileOutcome::Rotated => None,
    }
}

/// The message of a finished run over `count` pictures taking `secs` seconds.
pub open spec fn summary_message(count: nat, secs: nat) -> Seq<char> {
    "rotated "@ + decimal(count) + " files in "@ + decimal(secs) + " seconds"@
}

/// The report of a run in which every file was turned: code 0 and the count
/// of pictures and whole seconds taken.
pub fn rotate_summary(count: usize, secs: u64) -> (r: (u32, String))
    ensures
        r.0 == 0,
        r.1@ == summary_message(count as nat, secs as nat),
{
    let mut m = String::from_str("rotated ");
    let c = format_u64(count as u64);
    m.append(c.as_str());
    m.append(" files in ");
    let s = format_u64(secs);
    m.append(s.as_str());
    m.append(" seconds");
    assert(m@ =~= summary_message(count as nat, secs as nat));
    (0, m)
}

} // verus!

verus! {

/// The report of a whole turning run over the files `paths`, of which the
/// first `outcomes.len()` were tried with these outcomes: the report of the
/// first file that failed, which ends the run, or, where none failed, the
/// summary over `count` pictures and `secs` seconds.
pub open spec fn run_report(paths: Seq<Seq<char>>, outcomes: Seq<FileOutcome>, count: nat, secs: nat) -> (
    u32,
    Seq<char>,
)
    decreases outcomes.len(),
{
    if outcomes.len() == 0 {
        (0u32, summary_message(count, secs))
    } else {
        match file_outcome_report(paths[0], outcomes[0]) {
            Some(report) => report,
            None => run_report(paths.drop_first(), outcomes.drop_first(), count, secs),
        }
    }
}

/// The report of a turning run from the outcomes of the files tried, in
/// plan order: the first failure's report, otherwise the summary.
pub fn run_result(paths: &Vec<String>, outcomes: &Vec<FileOutcome>, count: usize, secs: u64) -> (r: (u32, String))
    requires
        outcomes.len() <= paths.len(),
    ensures
        (r.0, r.1@) == run_report(paths@.map_values(|p: String| p@), outcomes@, count as nat, secs as nat),
{
    let n = outcomes.len();
    let ghost views = paths@.map_values(|p: String| p@);
    let mut i: usize = 0;
    assert(views.skip(0) =~= views);
    assert(outcomes@.skip(0) =~= outcomes@);
    while i < n
        invariant
            n == outcomes.len(),
            n <= paths.len(),
            i <= n,
            views == paths@.map_values(|p: String| p@),
            run_report(views, outcomes@, count as nat, secs as nat) == run_report(
                views.skip(i as int),
                outcomes@.skip(i as int),
                count as nat,
                secs as nat,
            ),
        decreases n - i,
    {
        let ghost vs = views.skip(i as int);
        let ghost os = outcomes@.skip(i as int);
        assert(vs[0] == paths@[i as int]@);
        assert(os[0] == outcomes@[i as int]);
        match file_report(&paths[i], &outcomes[i]) {
            Some(report) => {
                return report;
            },
            None => {},
        }
        assert(vs.drop_first() =~= views.skip(i + 1));
        assert(os.drop_first() =~= outcomes@.skip(i + 1));
        i = i + 1;
    }
    assert(outcomes@.skip(n as int).len() == 0);
    rotate_summary(count, secs)
}

} // verus!

verus! {

/// A turning run stops at its first failing file: where the files before
/// `k` were all turned and file `k` failed, the run's report is that file's
/// error code and message (2 missing, 5 not decodable, 4 not saved, 3
/// metadata not written), whatever the later outcomes are.
pub proof fn lemma_run_stops_at_first_failure(
    paths: Seq<Seq<char>>,
    outcomes: Seq<FileOutcome>,
    count: nat,
    secs: nat,
    k: int,
)
    requires
        outcomes.len() <= paths.len(),
        0 <= k < outcomes.len(),
        forall|j: int| 0 <= j < k ==> #[trigger] outcomes[j] is Rotated,
        !(outcomes[k] is Rotated),
    ensures
        run_report(paths, outcomes, count, secs) == (match outcomes[k] {
            FileOutcome::Missing => (
                2u32,
                "********* rotate ERROR file: "@ + paths[k] + " does not exist **********"@,
            ),
            FileOutcome::OpenFailed(e) => (5u32, "Failure to open image file: "@ + paths[k] + "  error: "@ + e@),
            FileOutcome::SaveFailed(e) => (4u32, "Failure to save file: "@ + paths[k] + "  error: "@ + e@),
            FileOutcome::MetadataFailed(e) => (
                3u32,
                "Failure to save metadata for file: "@ + paths[k] + " error: "@ + e@,
            ),
            FileOutcome::Rotated => (0u32, Seq::empty()),
        }),
        run_report(paths, outcomes, count, secs).0 != 0,
    decreases k,
{
    if k > 0 {
        assert(outcomes[0] is Rotated);
        assert forall|j: int| 0 <= j < k - 1 implies #[trigger] outcomes.drop_first()[j] is Rotated by {
            assert(outcomes.drop_first()[j] == outcomes[j + 1]);
        }
        lemma_run_stops_at_first_failure(paths.drop_first(), outcomes.drop_first(), count, secs, k - 1);
        assert(outcomes.drop_first()[k - 1] == outcomes[k]);
        assert(paths.drop_first()[k - 1] == paths[k]);
    }
}

/// A turning run reports success exactly when every file it tried was
/// turned, and then its report is code 0 with "rotated <count> files in
/// <secs> seconds".
pub proof fn lemma_run_succeeds_only_when_all_turned(
    paths: Seq<Seq<char>>,
    outcomes: Seq<FileOutcome>,
    count: nat,
    secs: nat,
)
    requires
        outcomes.len() <= paths.len(),
    ensures
        (run_report(paths, outcomes, count, secs).0 == 0) <==> (forall|j: int|
            0 <= j < outcomes.len() ==> #[trigger] outcomes[j] is Rotated),
        (forall|j: int| 0 <= j < outcomes.len() ==> #[trigger] outcomes[j] is Rotated) ==> run_report(
            paths,
            outcomes,
            count,
            secs,
        ) == (0u32, "rotated "@ + decimal(count) + " files in "@ + decimal(secs) + " seconds"@),
    decreases outcomes.len(),
{
    if outcomes.len() > 0 {
        lemma_run_succeeds_only_when_all_turned(paths.drop_first(), outcomes.drop_first(), count, secs);
        if outcomes[0] is Rotated {
            assert forall|j: int| 0 <= j < outcomes.len() - 1 implies (#[trigger] outcomes.drop_first()[j]
                is Rotated) == (outcomes[j + 1] is Rotated) by {}
            if !(forall|j: int| 0 <= j < outcomes.len() ==> #[trigger] outcomes[j] is Rotated) {
                let j = choose|j: int| 0 <= j < outcomes.len() && !(#[trigger] outcomes[j] is Rotated);
                assert(!(outcomes.drop_first()[j - 1] is Rotated));
            } else {
                assert forall|j: int| 0 <= j < outcomes.len() - 1 implies #[trigger] outcomes.drop_first()[j]
                    is Rotated by {
                    assert(outcomes[j + 1] is Rotated);
                }
            }
        } else {
            lemma_run_stops_at_first_failure(paths, outcomes, count, secs, 0);
        }
    }
}

} // verus!
