//! Where recordings go: the output directory and the rule that gives every
//! recording a file name of its own.

use crate::text::{chars_of, ends_with, matches_at};
use vstd::prelude::*;
use vstd::string::{StrSliceExecFns, StringExecFns};

verus! {

/// The character that writes the digit `d`.
pub open spec fn digit_char(d: nat) -> char {
    if d == 0 {
        '0'
    } else if d == 1 {
        '1'
    } else if d == 2 {
        '2'
    } else if d == 3 {
        '3'
    } else if d == 4 {
        '4'
    } else if d == 5 {
        '5'
    } else if d == 6 {
        '6'
    } else if d == 7 {
        '7'
    } else if d == 8 {
        '8'
    } else {
        '9'
    }
}

/// `n` written in decimal, without leading zeros.
pub open spec fn decimal_digits(n: nat) -> Seq<char>
    decreases n,
{
    if n < 10 {
        seq![digit_char(n)]
    } else {
        decimal_digits(n / 10).push(digit_char(n % 10))
    }
}

/// The number that a sequence of decimal digits writes.
pub open spec fn decimal_value(digits: Seq<char>) -> nat
    decreases digits.len(),
{
    if digits.len() == 0 {
        0
    } else {
        let last = digits.last();
        let d: nat = if last == '1' {
            1
        } else if last == '2' {
            2
        } else if last == '3' {
            3
        } else if last == '4' {
            4
        } else if last == '5' {
            5
        } else if last == '6' {
            6
        } else if last == '7' {
            7
        } else if last == '8' {
            8
        } else if last == '9' {
            9
        } else {
            0
        };
        decimal_value(digits.drop_last()) * 10 + d
    }
}

/// Reading back the decimal form of a number gives the number.
pub proof fn lemma_decimal_round_trip(n: nat)
    ensures
        decimal_value(decimal_digits(n)) == n,
        decimal_digits(n).len() >= 1,
    decreases n,
{
    if n < 10 {
        assert(decimal_digits(n).drop_last() =~= Seq::<char>::empty());
        assert(decimal_value(Seq::<char>::empty()) == 0);
    } else {
        lemma_decimal_round_trip(n / 10);
        assert(decimal_digits(n).drop_last() =~= decimal_digits(n / 10));
    }
}

/// Two numbers with the same decimal form are the same number.
pub proof fn lemma_decimal_injective(a: nat, b: nat)
    requires
        decimal_digits(a) == decimal_digits(b),
    ensures
        a == b,
{
    lemma_decimal_round_trip(a);
    lemma_decimal_round_trip(b);
}

/// Ten to the power of `k`.
pub open spec fn pow10(k: nat) -> nat
    decreases k,
{
    if k == 0 {
        1
    } else {
        10 * pow10((k - 1) as nat)
    }
}

/// A number below ten to the power of `k` has at most `k` digits.
pub proof fn lemma_decimal_len(n: nat, k: nat)
    requires
        k >= 1,
        n < pow10(k),
    ensures
        1 <= decimal_digits(n).len() <= k,
    decreases k,
{
    assert(pow10(1) == 10) by {
        reveal_with_fuel(pow10, 2);
    }
    if n >= 10 {
        assert(k >= 2);
        assert(pow10(k) == 10 * pow10((k - 1) as nat));
        lemma_decimal_len(n / 10, (k - 1) as nat);
    }
}

/// A number that fits 64 bits has at most twenty digits.
pub proof fn lemma_decimal_len_u64(n: nat)
    requires
        n <= u64::MAX,
    ensures
        1 <= decimal_digits(n).len() <= 20,
{
    assert(pow10(20) == 100_000_000_000_000_000_000nat) by {
        reveal_with_fuel(pow10, 21);
    }
    lemma_decimal_len(n, 20);
}

/// The last position of `c` in the first `upto` characters of `s`, or -1.
pub open spec fn last_index_of(s: Seq<char>, c: char, upto: int) -> int
    decreases upto,
{
    if upto <= 0 || upto > s.len() {
        -1
    } else if s[upto - 1] == c {
        upto - 1
    } else {
        last_index_of(s, c, upto - 1)
    }
}

/// Where the counter goes into a file name: before a closing `.zip.acmi`,
/// else before the last dot, else at the end.
pub open spec fn counter_position(base: Seq<char>) -> int {
    let suffix = ".zip.acmi"@;
    if ends_with(base, suffix) {
        base.len() - suffix.len()
    } else if last_index_of(base, '.', base.len() as int) >= 0 {
        last_index_of(base, '.', base.len() as int)
    } else {
        base.len() as int
    }
}

/// The `counter`-th name tried for `base`: `base` itself, then `base` with
/// `-1`, `-2`, ... put in at `counter_position(base)`.
pub open spec fn candidate_name(base: Seq<char>, counter: nat) -> Seq<char> {
    if counter == 0 {
        base
    } else {
        let at = counter_position(base);
        base.take(at) + seq!['-'] + decimal_digits(counter) + base.skip(at)
    }
}

pub proof fn lemma_counter_position_in_range(base: Seq<char>)
    ensures
        0 <= counter_position(base) <= base.len(),
{
    lemma_last_index_in_range(base, '.', base.len() as int);
}

proof fn lemma_last_index_in_range(s: Seq<char>, c: char, upto: int)
    ensures
        -1 <= last_index_of(s, c, upto) < s.len() || last_index_of(s, c, upto) == -1,
        last_index_of(s, c, upto) < upto || last_index_of(s, c, upto) == -1,
    decreases upto,
{
    if upto <= 0 || upto > s.len() {
    } else if s[upto - 1] == c {
    } else {
        lemma_last_index_in_range(s, c, upto - 1);
    }
}

/// No two counters give the same name: a name once handed out for a base
/// is never handed out again for another counter.
pub proof fn lemma_candidate_names_distinct(base: Seq<char>, i: nat, j: nat)
    requires
        candidate_name(base, i) == candidate_name(base, j),
    ensures
        i == j,
{
    lemma_counter_position_in_range(base);
    lemma_decimal_round_trip(i);
    lemma_decimal_round_trip(j);
    let at = counter_position(base);
    let ni = candidate_name(base, i);
    let nj = candidate_name(base, j);
    if i == 0 && j == 0 {
    } else if i == 0 {
        assert(nj.len() == base.len() + 1 + decimal_digits(j).len());
    } else if j == 0 {
        assert(ni.len() == base.len() + 1 + decimal_digits(i).len());
    } else {
        let di = decimal_digits(i);
        let dj = decimal_digits(j);
        assert(ni.len() == base.len() + 1 + di.len());
        assert(nj.len() == base.len() + 1 + dj.len());
        assert(di.len() == dj.len());
        assert(di =~= ni.subrange(at + 1, at + 1 + di.len()));
        assert(dj =~= nj.subrange(at + 1, at + 1 + dj.len()));
        lemma_decimal_injective(i, j);
    }
}

/// Application settings.
#[derive(Debug, Clone)]
pub struct AppConfig {
    /// The directory that recordings are written to.
    pub output_dir: String,
}

/// The platform's directory for the user's documents, if it has one
/// whose path is text. Wraps `dirs::document_dir`; the answer depends on
/// the environment, so nothing is claimed of it.
#[verifier::external_body]
fn document_dir() -> (r: Option<String>) {
    dirs::document_dir().and_then(|p| p.into_os_string().into_string().ok())
}

/// The user's home directory, if it can be found and its path is text.
/// Wraps `dirs::home_dir`; the answer depends on the environment, so
/// nothing is claimed of it.
#[verifier::external_body]
fn home_dir() -> (r: Option<String>) {
    dirs::home_dir().and_then(|p| p.into_os_string().into_string().ok())
}

/// The platform's directory for configuration files, if it has one
/// whose path is text. Wraps `dirs::config_dir`; the answer depends on
/// the environment, so nothing is claimed of it.
#[verifier::external_body]
fn config_dir() -> (r: Option<String>) {
    dirs::config_dir().and_then(|p| p.into_os_string().into_string().ok())
}

/// Whether `name` is a plain file name on every platform: not empty,
/// neither `.` nor `..`, and free of `/`, `\` and `:`.
pub open spec fn is_plain_name(name: Seq<char>) -> bool {
    &&& name.len() > 0
    &&& name != seq!['.']
    &&& name != seq!['.', '.']
    &&& forall|i: int|
        0 <= i < name.len() ==> #[trigger] name[i] != '/' && name[i] != '\\' && name[i] != ':'
}

/// The name of the default output directory.
pub open spec fn output_dir_name() -> Seq<char> {
    "StormworksTacview"@
}

/// The name of the configuration file.
pub open spec fn config_file_name() -> Seq<char> {
    "stormworks-tacview.yml"@
}

/// `child` adjoined to the path `base`. Wraps `std::path::Path::join`.
/// How the two are put together depends on the platform's path syntax;
/// what is claimed is that a plain file name extends the path, so that
/// the result ends with it.
#[verifier::external_body]
fn join_path(base: &str, child: &str) -> (r: String)
    ensures
        is_plain_name(child@) ==> ends_with(r@, child@),
{
    std::path::Path::new(base).join(child).to_string_lossy().into_owned()
}

/// The directory under which the default output directory is made: the
/// documents directory, else the home directory, else the current one.
pub fn base_dir_from(documents: Option<String>, home: Option<String>) -> (r: String)
    ensures
        r@ == match documents {
            Some(d) => d@,
            None => match home {
                Some(h) => h@,
                None => "."@,
            },
        },
{
    match documents {
        Some(d) => d,
        None => match home {
            Some(h) => h,
            None => String::from_str("."),
        },
    }
}

/// The default output directory: `StormworksTacview` under the documents
/// directory, else under the home directory, else under the current one.
/// Which directory that is depends on the environment; its last part is
/// always `StormworksTacview`.
pub fn get_default_output_dir() -> (r: String)
    ensures
        ends_with(r@, output_dir_name()),
{
    let base = base_dir_from(document_dir(), home_dir());
    proof {
        lemma_file_names_are_plain();
    }
    join_path(base.as_str(), "StormworksTacview")
}

/// Where the configuration file lives: `stormworks-tacview.yml` in the
/// platform's configuration directory, if the platform has one. Whether
/// it has one, and which, depends on the environment; the last part of
/// the path is always `stormworks-tacview.yml`.
pub fn get_config_file_path() -> (r: Option<String>)
    ensures
        r matches Some(path) ==> ends_with(path@, config_file_name()),
{
    proof {
        lemma_file_names_are_plain();
    }
    match config_dir() {
        Some(dir) => Some(join_path(dir.as_str(), "stormworks-tacview.yml")),
        None => None,
    }
}

/// The two names that this module adjoins to directories are plain file
/// names.
proof fn lemma_file_names_are_plain()
    ensures
        is_plain_name(output_dir_name()),
        is_plain_name(config_file_name()),
{
    reveal_strlit("StormworksTacview");
    reveal_strlit("stormworks-tacview.yml");
    let a = output_dir_name();
    let b = config_file_name();
    assert(a.len() == 17);
    assert(b.len() == 22);
    assert forall|i: int| 0 <= i < a.len() implies #[trigger] a[i] != '/' && a[i] != '\\' && a[i]
        != ':' by {}
    assert forall|i: int| 0 <= i < b.len() implies #[trigger] b[i] != '/' && b[i] != '\\' && b[i]
        != ':' by {}
}

impl Default for AppConfig {
    /// The configuration with the default output directory.
    fn default() -> (r: Self)
        ensures
            ends_with(r.output_dir@, output_dir_name()),
    {
        AppConfig { output_dir: get_default_output_dir() }
    }
}

/// What `AppConfig::load` decided.
pub struct LoadedConfig {
    /// The configuration to run with.
    pub config: AppConfig,
    /// Whether it came from the configuration file.
    pub from_file: bool,
}

fn digit_text(d: u64) -> (r: &'static str)
    requires
        d < 10,
    ensures
        r@ == seq![digit_char(d as nat)],
{
    proof {
        reveal_strlit("0");
        reveal_strlit("1");
        reveal_strlit("2");
        reveal_strlit("3");
        reveal_strlit("4");
        reveal_strlit("5");
        reveal_strlit("6");
        reveal_strlit("7");
        reveal_strlit("8");
        reveal_strlit("9");
    }
    let r = if d == 0 {
        "0"
    } else if d == 1 {
        "1"
    } else if d == 2 {
        "2"
    } else if d == 3 {
        "3"
    } else if d == 4 {
        "4"
    } else if d == 5 {
        "5"
    } else if d == 6 {
        "6"
    } else if d == 7 {
        "7"
    } else if d == 8 {
        "8"
    } else {
        "9"
    };
    assert(r@ =~= seq![digit_char(d as nat)]);
    r
}

/// Appends `n` in decimal to `out`.
pub fn push_decimal(out: &mut String, n: u64)
    ensures
        final(out)@ == old(out)@ + decimal_digits(n as nat),
    decreases n,
{
    if n >= 10 {
        push_decimal(out, n / 10);
    }
    out.append(digit_text(n % 10));
    assert(out@ =~= old(out)@ + decimal_digits(n as nat));
}

fn rfind_char(s: &Vec<char>, c: char) -> (r: Option<usize>)
    ensures
        match r {
            Some(at) => at == last_index_of(s@, c, s.len() as int),
            None => last_index_of(s@, c, s.len() as int) == -1,
        },
{
    let mut i: usize = s.len();
    while i > 0
        invariant
            i <= s.len(),
            last_index_of(s@, c, s.len() as int) == last_index_of(s@, c, i as int),
        decreases i,
    {
        if s[i - 1] == c {
            return Some(i - 1);
        }
        i -= 1;
    }
    None
}

fn counter_position_of(base: &Vec<char>) -> (at: usize)
    ensures
        at == counter_position(base@),
        at <= base.len(),
{
    let suffix = chars_of(".zip.acmi");
    proof {
        reveal_strlit(".zip.acmi");
        lemma_counter_position_in_range(base@);
    }
    if base.len() >= 9 && matches_at(base, &suffix, base.len() - 9) {
        return base.len() - 9;
    }
    match rfind_char(base, '.') {
        Some(at) => at,
        None => base.len(),
    }
}

/// The `counter`-th name tried for `base`.
pub fn nth_candidate(base: &str, counter: u64) -> (r: String)
    ensures
        r@ == candidate_name(base@, counter as nat),
{
    if counter == 0 {
        return String::from_str(base);
    }
    let chars = chars_of(base);
    let at = counter_position_of(&chars);
    let mut r = String::from_str(base.substring_char(0, at));
    r.append("-");
    proof {
        reveal_strlit("-");
    }
    push_decimal(&mut r, counter);
    r.append(base.substring_char(at, chars.len()));
    assert(r@ =~= candidate_name(base@, counter as nat));
    r
}

/// Whether `name` is one of `names`.
pub open spec fn is_taken(names: Seq<String>, name: Seq<char>) -> bool {
    exists|i: int| 0 <= i < names.len() && (#[trigger] names[i])@ == name
}

fn name_taken(names: &Vec<String>, name: &String) -> (b: bool)
    ensures
        b == is_taken(names@, name@),
{
    let mut i: usize = 0;
    while i < names.len()
        invariant
            i <= names.len(),
            forall|j: int| 0 <= j < i ==> (#[trigger] names@[j])@ != name@,
        decreases names.len() - i,
    {
        if names[i] == *name {
            return true;
        }
        i += 1;
    }
    false
}

/// The counter of the name that `generate_output_path` gives: the least
/// one whose candidate is not taken.
pub open spec fn is_first_free(base: Seq<char>, taken: Seq<String>, counter: nat) -> bool {
    &&& !is_taken(taken, candidate_name(base, counter))
    &&& forall|j: nat| j < counter ==> is_taken(taken, #[trigger] candidate_name(base, j))
}

/// Whether `name` is the name that `generate_output_path` gives for `base`
/// when the names `taken` are in use: the first candidate that is free.
pub open spec fn is_output_name(base: Seq<char>, taken: Seq<String>, name: Seq<char>) -> bool {
    exists|counter: nat|
        name == candidate_name(base, counter) && #[trigger] is_first_free(base, taken, counter)
}

/// The name given for `base` is at most twenty-one characters longer than
/// `base`: a hyphen and a counter no greater than the number of names in
/// use.
pub proof fn lemma_output_name_len(base: Seq<char>, taken: Seq<String>, name: Seq<char>)
    requires
        is_output_name(base, taken, name),
        taken.len() <= u64::MAX,
    ensures
        name.len() <= base.len() + 21,
{
    let counter = choose|counter: nat|
        name == candidate_name(base, counter) && #[trigger] is_first_free(base, taken, counter);
    lemma_taken_candidates_bounded(base, taken, counter);
    lemma_decimal_len_u64(counter);
    lemma_counter_position_in_range(base);
}

/// When the first `k` candidates are all taken, there are at least `k`
/// taken names.
proof fn lemma_taken_candidates_bounded(base: Seq<char>, taken: Seq<String>, k: nat)
    requires
        forall|j: nat| j < k ==> is_taken(taken, #[trigger] candidate_name(base, j)),
    ensures
        k <= taken.len(),
{
    let index_of = |j: int|
        choose|i: int| 0 <= i < taken.len() && (#[trigger] taken[i])@ == candidate_name(base, j as nat);
    let counters = Set::<int>::new(|j: int| 0 <= j < k);
    let indexes = counters.map(index_of);
    assert(counters =~= vstd::set_lib::set_int_range(0, k as int));
    vstd::set_lib::lemma_int_range(0, k as int);
    assert forall|a: int, b: int| index_of(a) == index_of(b) && counters.contains(a) && counters.contains(b) implies a == b by {
        assert(is_taken(taken, candidate_name(base, a as nat)));
        assert(is_taken(taken, candidate_name(base, b as nat)));
        lemma_candidate_names_distinct(base, a as nat, b as nat);
    }
    vstd::set_lib::lemma_map_size(counters, indexes, index_of);
    let all = vstd::set_lib::set_int_range(0, taken.len() as int);
    vstd::set_lib::lemma_int_range(0, taken.len() as int);
    assert forall|i: int| indexes.contains(i) implies all.contains(i) by {
        let j = choose|j: int| counters.contains(j) && index_of(j) == i;
        assert(is_taken(taken, candidate_name(base, j as nat)));
    }
    vstd::set_lib::lemma_len_subset(indexes, all);
}

/// A name once given out is never given out again: when the name given
/// for `taken` has come into use beside all of `taken`, the next name has
/// a greater counter, and so is another name.
pub proof fn law_output_names_advance(
    base: Seq<char>,
    taken: Seq<String>,
    counter: nat,
    later: Seq<String>,
    later_counter: nat,
)
    requires
        is_first_free(base, taken, counter),
        is_first_free(base, later, later_counter),
        is_taken(later, candidate_name(base, counter)),
        forall|name: Seq<char>| is_taken(taken, name) ==> is_taken(later, name),
    ensures
        later_counter > counter,
        candidate_name(base, later_counter) != candidate_name(base, counter),
{
    if later_counter < counter {
        assert(is_taken(taken, candidate_name(base, later_counter)));
    }
    if candidate_name(base, later_counter) == candidate_name(base, counter) {
        lemma_candidate_names_distinct(base, later_counter, counter);
    }
}

/// The name given for `base` is settled by `base` and the names in use.
pub proof fn law_output_name_is_unique(
    base: Seq<char>,
    taken: Seq<String>,
    name: Seq<char>,
    other: Seq<char>,
)
    requires
        is_output_name(base, taken, name),
        is_output_name(base, taken, other),
    ensures
        name == other,
{
    let c = choose|c: nat| name == candidate_name(base, c) && #[trigger] is_first_free(base, taken, c);
    let d = choose|d: nat| other == candidate_name(base, d) && #[trigger] is_first_free(base, taken, d);
    if c < d {
        assert(is_taken(taken, candidate_name(base, c)));
    }
    if d < c {
        assert(is_taken(taken, candidate_name(base, d)));
    }
}

impl AppConfig {
    /// Settles the configuration to run with: the one read from the
    /// configuration file, or, when none could be read, the default one.
    pub fn load(from_file: Option<AppConfig>) -> (r: LoadedConfig)
        ensures
            r.from_file == (from_file is Some),
            from_file matches Some(c) ==> r.config == c,
            from_file is None ==> ends_with(r.config.output_dir@, output_dir_name()),
    {
        match from_file {
            Some(config) => LoadedConfig { config, from_file: true },
            None => LoadedConfig { config: AppConfig::default(), from_file: false },
        }
    }

    /// A file name for a new recording that none of the `taken` names has:
    /// `base_filename` itself if it is free, else the first of
    /// `base_filename` with `-1`, `-2`, ... put in before `.zip.acmi` (or
    /// before the last dot, or at the end) that is free.
    pub fn generate_output_path(&self, base_filename: &str, taken: &Vec<String>) -> (r: String)
        ensures
            is_output_name(base_filename@, taken@, r@),
    {
        let mut counter: usize = 0;
        let mut name = nth_candidate(base_filename, 0);
        while name_taken(taken, &name)
            invariant
                counter <= taken.len(),
                name@ == candidate_name(base_filename@, counter as nat),
                forall|j: nat|
                    j < counter ==> is_taken(taken@, #[trigger] candidate_name(base_filename@, j)),
            decreases taken.len() - counter,
        {
            proof {
                lemma_taken_candidates_bounded(base_filename@, taken@, (counter + 1) as nat);
            }
            counter += 1;
            name = nth_candidate(base_filename, counter as u64);
        }
        assert(is_first_free(base_filename@, taken@, counter as nat));
        name
    }
}


} // verus!
