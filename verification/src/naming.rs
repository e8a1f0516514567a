use vstd::prelude::*;
use vstd::string::StrSliceExecFns;

use crate::decimal::decimal_digits;
use crate::decimal::usize_to_string;
use crate::decimal::lemma_decimal_digits_injective;

verus! {

/// The invocation parameters the conversion logic reads. Mirrors the
/// command line: three mode flags, the optional password and prefix,
/// and the target resolution. Paths stay with the caller; the logic
/// only ever needs the input file's name as text.
pub struct Args {
    /// Convert only the first page, naming it without an index suffix.
    pub first_page_only: bool,
    /// Print the page count and quit without converting.
    pub page_count_only: bool,
    /// Extract and print text content instead of rendering.
    pub text_only: bool,
    /// The document password, if one was supplied.
    pub password: Option<String>,
    /// An explicit file prefix, overriding the one derived from the file name.
    pub prefix: Option<String>,
    /// The target width and maximum height of each rendered page, in pixels.
    pub resolution_pixels: u16,
}

/// The largest index `>= 1` at which `name` holds a `.`, or `0` when
/// there is none. A dot at index `0` alone (a leading-dot file name)
/// never starts an extension.
pub open spec fn last_dot_index(name: Seq<char>) -> int
    decreases name.len(),
{
    if name.len() <= 1 {
        0
    } else if name[name.len() - 1] == '.' {
        name.len() - 1
    } else {
        last_dot_index(name.drop_last())
    }
}

/// The file name with its trailing `.ext` segment removed, if it has
/// one: everything before the last `.`, unless the only `.` leads the
/// name or there is none, in which case the name is unchanged.
pub open spec fn prefix_of(name: Seq<char>) -> Seq<char> {
    let k = last_dot_index(name);
    if k >= 1 {
        name.subrange(0, k)
    } else {
        name
    }
}

proof fn lemma_last_dot_index_none(name: Seq<char>)
    requires
        forall|j: int| 1 <= j < name.len() ==> name[j] != '.',
    ensures
        last_dot_index(name) == 0,
    decreases name.len(),
{
    if name.len() > 1 {
        lemma_last_dot_index_none(name.drop_last());
    }
}

proof fn lemma_last_dot_index_at(name: Seq<char>, k: int)
    requires
        1 <= k < name.len(),
        name[k] == '.',
        forall|j: int| k < j < name.len() ==> name[j] != '.',
    ensures
        last_dot_index(name) == k,
    decreases name.len(),
{
    if k < name.len() - 1 {
        lemma_last_dot_index_at(name.drop_last(), k);
    }
}

/// A file name with no `.` past its first character (none at all, or
/// only a leading dot) derives a prefix equal to the whole name.
pub proof fn lemma_prefix_without_extension_unchanged(name: Seq<char>)
    requires
        forall|j: int| 1 <= j < name.len() ==> name[j] != '.',
    ensures
        prefix_of(name) == name,
{
    lemma_last_dot_index_none(name);
}

/// A file name whose last `.` stands at index `k >= 1` derives a prefix
/// equal to the name with exactly the trailing `.ext` segment removed:
/// the name is the prefix followed by that final segment.
pub proof fn lemma_prefix_strips_final_extension(name: Seq<char>, k: int)
    requires
        1 <= k < name.len(),
        name[k] == '.',
        forall|j: int| k < j < name.len() ==> name[j] != '.',
    ensures
        prefix_of(name) == name.subrange(0, k),
        name =~= prefix_of(name) + name.subrange(k, name.len() as int),
{
    lemma_last_dot_index_at(name, k);
}

/// Derives the output file prefix from the input file's name by
/// stripping the trailing extension, if any.
pub fn derive_prefix(file_name: &str) -> (r: String)
    ensures
        r@ == prefix_of(file_name@),
{
    let n = file_name.unicode_len();
    let mut j: usize = 1;
    let mut k: usize = 0;
    while j < n
        invariant
            1 <= j,
            j <= n || n <= 1,
            n == file_name@.len(),
            k == 0 ==> forall|t: int| 1 <= t < j ==> file_name@[t] != '.',
            k != 0 ==> 1 <= k < j <= n && file_name@[k as int] == '.' && forall|t: int|
                k < t < j ==> file_name@[t] != '.',
        decreases n - j,
    {
        if file_name.get_char(j) == '.' {
            k = j;
        }
        j += 1;
    }
    if k == 0 {
        proof {
            lemma_last_dot_index_none(file_name@);
        }
        file_name.to_owned()
    } else {
        proof {
            lemma_last_dot_index_at(file_name@, k as int);
        }
        file_name.substring_char(0, k).to_owned()
    }
}

/// The prefix an invocation resolves to: the explicit one verbatim when
/// given, otherwise the one derived from the input file's name.
pub open spec fn resolved_prefix(explicit: Option<Seq<char>>, file_name: Seq<char>) -> Seq<char> {
    match explicit {
        Option::Some(p) => p,
        Option::None => prefix_of(file_name),
    }
}

/// Resolves the output file prefix for an invocation.
pub fn get_prefix(pdf_file_name: &str, args: &Args) -> (r: String)
    ensures
        r@ == resolved_prefix(args.prefix.deep_view(), pdf_file_name@),
{
    match &args.prefix {
        Option::Some(p) => p.clone(),
        Option::None => derive_prefix(pdf_file_name),
    }
}

/// The name of the image file for the page at `index` (zero-based):
/// `{prefix}.png` in first-page-only mode, `{prefix}-{index}.png`
/// otherwise.
pub open spec fn page_file_name(prefix: Seq<char>, index: nat, first_page_only: bool) -> Seq<char> {
    if first_page_only {
        prefix + ".png"@
    } else {
        prefix + "-"@ + decimal_digits(index) + ".png"@
    }
}

/// Builds the output file name for one page.
pub fn file_name_for_page(prefix: &str, index: usize, first_page_only: bool) -> (r: String)
    ensures
        r@ == page_file_name(prefix@, index as nat, first_page_only),
{
    if first_page_only {
        let r = prefix.to_owned().concat(".png");
        assert(r@ =~= page_file_name(prefix@, index as nat, true));
        r
    } else {
        let digits = usize_to_string(index);
        let r = prefix.to_owned().concat("-").concat(digits.as_str()).concat(".png");
        assert(r@ =~= page_file_name(prefix@, index as nat, false));
        r
    }
}

/// The full list of output file names for a document of `page_count`
/// pages: one name per page in page order, or the single unsuffixed
/// name in first-page-only mode (none at all for an empty document).
pub open spec fn planned_file_names(prefix: Seq<char>, page_count: nat, first_page_only: bool) -> Seq<
    Seq<char>,
> {
    if first_page_only {
        if page_count == 0 {
            Seq::empty()
        } else {
            seq![page_file_name(prefix, 0, true)]
        }
    } else {
        Seq::new(page_count, |i: int| page_file_name(prefix, i as nat, false))
    }
}

/// Builds the list of output file names for the whole document.
pub fn output_file_names(prefix: &str, page_count: usize, first_page_only: bool) -> (r: Vec<String>)
    ensures
        r.deep_view() =~~= planned_file_names(prefix@, page_count as nat, first_page_only),
{
    let mut names: Vec<String> = Vec::new();
    if first_page_only {
        if page_count > 0 {
            names.push(file_name_for_page(prefix, 0, true));
        }
        assert(names.deep_view() =~~= planned_file_names(
            prefix@,
            page_count as nat,
            first_page_only,
        ));
        names
    } else {
        let mut i: usize = 0;
        while i < page_count
            invariant
                i <= page_count,
                names.deep_view() =~~= Seq::new(
                    i as nat,
                    |j: int| page_file_name(prefix@, j as nat, false),
                ),
            decreases page_count - i,
        {
            let ghost pre = names.deep_view();
            let name = file_name_for_page(prefix, i, false);
            names.push(name);
            proof {
                assert(names.deep_view() =~~= pre.push(page_file_name(prefix@, i as nat, false)));
                assert(names.deep_view() =~~= Seq::new(
                    (i + 1) as nat,
                    |j: int| page_file_name(prefix@, j as nat, false),
                ));
            }
            i += 1;
        }
        names
    }
}

/// The page count a run prints matches the image files it produces:
/// one file per page ordinarily, and exactly one file in first-page-only
/// mode for any document with at least one page.
pub proof fn lemma_page_count_matches_files(
    prefix: Seq<char>,
    page_count: nat,
    first_page_only: bool,
)
    ensures
        !first_page_only ==> planned_file_names(prefix, page_count, false).len() == page_count,
        first_page_only && page_count >= 1 ==> planned_file_names(prefix, page_count, true).len()
            == 1,
{
}

/// Output file naming is a pure function of prefix, page index and the
/// first-page-only flag: no two pages of one run ever target the same
/// output path, and re-running with the same parameters targets exactly
/// the names of the earlier run (so files are overwritten, never
/// accumulated under fresh names).
pub proof fn lemma_planned_names_distinct(
    prefix: Seq<char>,
    page_count: nat,
    first_page_only: bool,
)
    ensures
        forall|i: int, j: int|
            0 <= i < j < planned_file_names(prefix, page_count, first_page_only).len()
                ==> planned_file_names(prefix, page_count, first_page_only)[i]
                != planned_file_names(prefix, page_count, first_page_only)[j],
{
    let names = planned_file_names(prefix, page_count, first_page_only);
    assert forall|i: int, j: int| 0 <= i < j < names.len() implies names[i] != names[j] by {
        lemma_page_file_names_distinct(prefix, i as nat, j as nat);
    }
}

/// Two distinct page indices yield distinct output file names.
pub proof fn lemma_page_file_names_distinct(prefix: Seq<char>, i: nat, j: nat)
    requires
        i != j,
    ensures
        page_file_name(prefix, i, false) != page_file_name(prefix, j, false),
{
    lemma_decimal_digits_injective(i, j);
    let di = decimal_digits(i);
    let dj = decimal_digits(j);
    let ni = page_file_name(prefix, i, false);
    let nj = page_file_name(prefix, j, false);
    if ni == nj {
        let p = prefix.len() + "-"@.len();
        if di.len() == dj.len() {
            assert forall|t: int| 0 <= t < di.len() implies di[t] == dj[t] by {
                assert(ni[p + t] == di[t]);
                assert(nj[p + t] == dj[t]);
            }
            assert(di =~= dj);
        } else {
            assert(ni.len() != nj.len());
        }
    }
}

} // verus!
