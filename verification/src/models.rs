//! The job record and the names of its files.

use vstd::arithmetic::div_mod::{lemma_mod_breakdown, lemma_small_mod};
use vstd::arithmetic::power::{lemma_pow0, lemma_pow1, lemma_pow_adds, lemma_pow_positive, pow};
use vstd::prelude::*;

verus! {

/// Where a job stands.
#[derive(Clone, Copy, Debug, PartialEq, Eq, Structural)]
pub enum State {
    Waiting,
    Processing,
    Done,
    Error,
}

impl State {
    /// `Done` and `Error` end a job; nothing follows them.
    pub open spec fn is_terminal(self) -> bool {
        self == State::Done || self == State::Error
    }

    /// The state's name as status reports show it.
    pub open spec fn name(self) -> Seq<char> {
        match self {
            State::Waiting => "Waiting"@,
            State::Processing => "Processing"@,
            State::Done => "Done"@,
            State::Error => "Error"@,
        }
    }

    /// Whether the state ends a job.
    pub fn terminal(&self) -> (terminal: bool)
        ensures
            terminal == self.is_terminal(),
    {
        match self {
            State::Done | State::Error => true,
            _ => false,
        }
    }

    /// The state's name as status reports show it.
    pub fn to_string(&self) -> (text: String)
        ensures
            text@ == self.name(),
    {
        match self {
            State::Waiting => "Waiting".to_owned(),
            State::Processing => "Processing".to_owned(),
            State::Done => "Done".to_owned(),
            State::Error => "Error".to_owned(),
        }
    }
}

/// Which of a job's two files is meant.
#[derive(Clone, Copy, Debug, PartialEq, Eq, Structural)]
pub enum FileType {
    Input,
    Output,
}

/// One submitted video, from submission to its end.
///
/// `completed_at` is a reading of the server's monotonic clock in nanoseconds.
#[derive(Debug, PartialEq, Eq)]
pub struct Job {
    pub id: u128,
    pub source_url: String,
    pub dest_url: String,
    pub state: State,
    pub error_message: Option<String>,
    pub completed_at: Option<u64>,
}

/// A job as contracts speak of it: its texts as sequences of characters.
pub ghost struct JobView {
    pub id: u128,
    pub source_url: Seq<char>,
    pub dest_url: Seq<char>,
    pub state: State,
    pub error_message: Option<Seq<char>>,
    pub completed_at: Option<u64>,
}

/// The view of an optional text.
pub open spec fn text_view(text: Option<String>) -> Option<Seq<char>> {
    match text {
        Some(t) => Some(t@),
        None => None,
    }
}

impl View for Job {
    type V = JobView;

    open spec fn view(&self) -> JobView {
        JobView {
            id: self.id,
            source_url: self.source_url@,
            dest_url: self.dest_url@,
            state: self.state,
            error_message: text_view(self.error_message),
            completed_at: self.completed_at,
        }
    }
}

impl JobView {
    /// A job as it is right after submission.
    pub open spec fn fresh(id: u128, source_url: Seq<char>, dest_url: Seq<char>) -> JobView {
        JobView {
            id,
            source_url,
            dest_url,
            state: State::Waiting,
            error_message: None,
            completed_at: None,
        }
    }

    /// The record holds a completion time exactly when the job has ended, and
    /// an error message exactly when it ended in `Error`.
    pub open spec fn consistent(self) -> bool {
        &&& self.completed_at is Some <==> self.state.is_terminal()
        &&& self.error_message is Some <==> self.state == State::Error
    }

    /// The job after a change of state at time `now`: state and message are
    /// replaced, the completion time is set when the new state ends the job and
    /// kept as it was otherwise.
    pub open spec fn moved(self, new_state: State, error_message: Option<Seq<char>>, now: u64)
        -> JobView {
        JobView {
            state: new_state,
            error_message,
            completed_at: if new_state.is_terminal() {
                Some(now)
            } else {
                self.completed_at
            },
            ..self
        }
    }
}

/// A move to `Done` or `Error` stamps the completion time with the time of
/// the move. A move to `Waiting` or `Processing` neither sets nor clears it.
/// Whatever the move, state and message are the new ones and identifier and
/// addresses stay.
pub proof fn lemma_move_stamps_the_end(
    job: JobView,
    new_state: State,
    error_message: Option<Seq<char>>,
    now: u64,
)
    ensures
        new_state == State::Done || new_state == State::Error ==> job.moved(
            new_state,
            error_message,
            now,
        ).completed_at == Some(now),
        new_state == State::Waiting || new_state == State::Processing ==> job.moved(
            new_state,
            error_message,
            now,
        ).completed_at == job.completed_at,
        job.moved(new_state, error_message, now).state == new_state,
        job.moved(new_state, error_message, now).error_message == error_message,
        job.moved(new_state, error_message, now).id == job.id,
        job.moved(new_state, error_message, now).source_url == job.source_url,
        job.moved(new_state, error_message, now).dest_url == job.dest_url,
{
}

/// A copy of an optional text.
pub fn clone_text(text: &Option<String>) -> (copy: Option<String>)
    ensures
        text_view(copy) == text_view(*text),
{
    match text {
        Some(t) => Some(t.clone()),
        None => None,
    }
}

impl Clone for Job {
    fn clone(&self) -> (copy: Job)
        ensures
            copy@ == self@,
    {
        Job {
            id: self.id,
            source_url: self.source_url.clone(),
            dest_url: self.dest_url.clone(),
            state: self.state,
            error_message: clone_text(&self.error_message),
            completed_at: self.completed_at,
        }
    }
}

impl Job {
    /// The record of a video that has just been submitted.
    pub fn new(id: u128, source_url: String, dest_url: String) -> (job: Job)
        ensures
            job@ == JobView::fresh(id, source_url@, dest_url@),
    {
        Job {
            id,
            source_url,
            dest_url,
            state: State::Waiting,
            error_message: None,
            completed_at: None,
        }
    }
}

/// The character that writes the hexadecimal digit `nibble` in lower case.
pub open spec fn hex_char(nibble: int) -> char {
    if nibble == 0 {
        '0'
    } else if nibble == 1 {
        '1'
    } else if nibble == 2 {
        '2'
    } else if nibble == 3 {
        '3'
    } else if nibble == 4 {
        '4'
    } else if nibble == 5 {
        '5'
    } else if nibble == 6 {
        '6'
    } else if nibble == 7 {
        '7'
    } else if nibble == 8 {
        '8'
    } else if nibble == 9 {
        '9'
    } else if nibble == 10 {
        'a'
    } else if nibble == 11 {
        'b'
    } else if nibble == 12 {
        'c'
    } else if nibble == 13 {
        'd'
    } else if nibble == 14 {
        'e'
    } else {
        'f'
    }
}

/// The `k`-th of the 32 hexadecimal digits of `id`, counted from the most
/// significant one.
pub open spec fn hex_digit(id: u128, k: int) -> int {
    (id as int / pow(16, (31 - k) as nat)) % 16
}

/// The identifier in its usual notation: 32 lower-case hexadecimal digits,
/// most significant first, in groups of 8, 4, 4, 4 and 12 with a hyphen
/// between groups.
pub open spec fn id_text(id: u128) -> Seq<char> {
    Seq::new(
        36,
        |i: int|
            if i == 8 || i == 13 || i == 18 || i == 23 {
                '-'
            } else if i < 8 {
                hex_char(hex_digit(id, i))
            } else if i < 13 {
                hex_char(hex_digit(id, i - 1))
            } else if i < 18 {
                hex_char(hex_digit(id, i - 2))
            } else if i < 23 {
                hex_char(hex_digit(id, i - 3))
            } else {
                hex_char(hex_digit(id, i - 4))
            },
    )
}

/// Writes a job identifier in its usual notation.
///
/// Trusted: `uuid::Uuid::from_u128` takes the number as the identifier's 16
/// bytes, most significant first, and the identifier's `to_string` writes them
/// as hyphenated lower-case hexadecimal.
#[verifier::external_body]
pub(crate) fn id_string(id: u128) -> (text: String)
    ensures
        text@ == id_text(id),
{
    uuid::Uuid::from_u128(id).to_string()
}

/// The name of a job's file inside the working directory.
pub open spec fn path_of(id: u128, file_type: FileType) -> Seq<char> {
    match file_type {
        FileType::Input => id_text(id),
        FileType::Output => id_text(id) + ".webm"@,
    }
}

/// The name of a job's input or output file inside the working directory.
pub fn build_path(id: u128, file_type: FileType) -> (path: String)
    ensures
        path@ == path_of(id, file_type),
{
    let mut path = id_string(id);
    match file_type {
        FileType::Input => {},
        FileType::Output => {
            path.append(".webm");
        },
    }
    path
}

/// Two numbers that agree in their `j` lowest hexadecimal digits agree modulo
/// the `j`-th power of 16.
proof fn lemma_low_digits_decide(a: int, b: int, j: nat)
    requires
        0 <= a,
        0 <= b,
        forall|e: nat| e < j ==> (a / #[trigger] pow(16, e)) % 16 == (b / pow(16, e)) % 16,
    ensures
        a % pow(16, j) == b % pow(16, j),
    decreases j,
{
    if j == 0 {
        lemma_pow0(16);
    } else {
        let e = (j - 1) as nat;
        lemma_low_digits_decide(a, b, e);
        let weight = pow(16, e);
        lemma_pow_positive(16, e);
        assert(pow(16, j) == weight * 16) by {
            lemma_pow_adds(16, e, 1);
            lemma_pow1(16);
        }
        lemma_mod_breakdown(a, weight, 16);
        lemma_mod_breakdown(b, weight, 16);
        assert((a / pow(16, e)) % 16 == (b / pow(16, e)) % 16);
    }
}

/// Sixteen to the power of 32 is one more than the greatest identifier.
proof fn lemma_sixteen_to_the_32()
    ensures
        pow(16, 32) == 0x1_0000_0000_0000_0000_0000_0000_0000_0000,
{
    lemma_pow1(16);
    lemma_pow_adds(16, 1, 1);
    assert(pow(16, 2) == 0x100);
    lemma_pow_adds(16, 2, 2);
    assert(pow(16, 4) == 0x1_0000);
    lemma_pow_adds(16, 4, 4);
    assert(pow(16, 8) == 0x1_0000_0000);
    lemma_pow_adds(16, 8, 8);
    assert(pow(16, 16) == 0x1_0000_0000_0000_0000);
    lemma_pow_adds(16, 16, 16);
}

/// Different identifiers are written differently.
pub proof fn lemma_id_text_is_injective(a: u128, b: u128)
    requires
        id_text(a) == id_text(b),
    ensures
        a == b,
{
    assert forall|e: nat| e < 32 implies (a as int / #[trigger] pow(16, e)) % 16 == (b as int
        / pow(16, e)) % 16 by {
        let k = 31 - e;
        let i = if k < 8 {
            k
        } else if k < 12 {
            k + 1
        } else if k < 16 {
            k + 2
        } else if k < 20 {
            k + 3
        } else {
            k + 4
        };
        assert(id_text(a)[i] == id_text(b)[i]);
        assert(id_text(a)[i] == hex_char(hex_digit(a, k)));
        assert(id_text(b)[i] == hex_char(hex_digit(b, k)));
        assert(0 <= hex_digit(a, k) < 16);
        assert(0 <= hex_digit(b, k) < 16);
        assert(hex_digit(a, k) == hex_digit(b, k));
    }
    lemma_low_digits_decide(a as int, b as int, 32);
    lemma_sixteen_to_the_32();
    lemma_small_mod(a as nat, pow(16, 32) as nat);
    lemma_small_mod(b as nat, pow(16, 32) as nat);
}

/// No two files of the working directory share a name: the paths of two jobs
/// differ, and so do the input and the output path of one job.
pub proof fn lemma_paths_differ(a: u128, first: FileType, b: u128, second: FileType)
    requires
        path_of(a, first) == path_of(b, second),
    ensures
        a == b,
        first == second,
{
    reveal_strlit(".webm");
    let tail = ".webm"@;
    assert(id_text(a).len() == 36 && id_text(b).len() == 36);
    assert(path_of(a, first).len() == path_of(b, second).len());
    assert(first == second);
    assert(id_text(a) =~= path_of(a, first).take(36));
    assert(id_text(b) =~= path_of(b, second).take(36));
    lemma_id_text_is_injective(a, b);
}

} // verus!
