//! The power-scheme manager: parses the output of the `powercfg` listing
//! commands, decides which commands to issue, and plans the removal of
//! duplicate-named schemes while protecting the three reserved identifiers.
//!
//! No function here runs a command. Each either parses command output handed
//! in as text, or returns the exact command line to run, so that everything
//! the manager decides is verified and the unverified shell only executes.

use vstd::prelude::*;
use vstd::string::StrSliceExecFns;
use vstd::string::StringExecFns;

use crate::text::contains_at;
use crate::text::contains_sub;
use crate::text::find_from;
use crate::text::lemma_find_from;
use crate::text::lines_of;
use crate::text::join_spaces_from;
use crate::text::join_with_spaces;
use crate::text::skip_spaces;
use crate::text::split_lines;
use crate::text::split_tokens;
use crate::text::str_contains;
use crate::text::str_eq;
use crate::text::strip_suffix_all;
use crate::text::strip_suffix_repeated;
use crate::text::tokens_of;
use crate::text::find_char_from;
use crate::text::find_non_space_from;

verus! {

/// Errors of the power-scheme manager: a child process could not be run, or
/// the expected textual pattern was absent from command output. Only `Parse`
/// arises in this crate; `Execution` is for the caller that spawns commands.
#[derive(Clone, Copy, PartialEq, Eq, Debug, Structural)]
pub enum PowerError {
    Execution,
    Parse,
}

/// Number of characters in a scheme identifier.
pub const GUID_CHARS: usize = 36;

/// The identifier of the built-in Balanced scheme.
pub open spec fn balanced_guid() -> Seq<char> {
    "381b4222-f694-41f0-9685-ff5bb260df2e"@
}

/// The identifier of the built-in High Performance scheme.
pub open spec fn high_performance_guid() -> Seq<char> {
    "8c5e7fda-e8bf-4a96-9a85-a6e23a8c635c"@
}

/// The identifier of the third built-in scheme (Power Saver).
pub open spec fn power_saver_guid() -> Seq<char> {
    "a1841308-3541-4fab-bc81-f71556f20b4a"@
}

/// The three reserved identifiers that cleanup must never delete.
pub open spec fn is_reserved_guid(guid: Seq<char>) -> bool {
    guid == balanced_guid() || guid == high_performance_guid() || guid == power_saver_guid()
}

/// Runtime test matching `is_reserved_guid`.
pub fn is_reserved_scheme_id(guid: &str) -> (r: bool)
    ensures
        r == is_reserved_guid(guid@),
{
    str_eq(guid, "381b4222-f694-41f0-9685-ff5bb260df2e") || str_eq(
        guid,
        "8c5e7fda-e8bf-4a96-9a85-a6e23a8c635c",
    ) || str_eq(guid, "a1841308-3541-4fab-bc81-f71556f20b4a")
}

/// The identifier the active-scheme line yields: after the first colon of a
/// line mentioning "GUID", skip whitespace, take up to the next space, and
/// accept exactly 36 characters.
pub open spec fn active_guid_of_line(l: Seq<char>) -> Option<Seq<char>> {
    if contains_sub(l, "GUID"@) {
        match find_from(l, ':', 0) {
            Some(cp) => {
                let st = skip_spaces(l, cp + 1);
                match find_from(l, ' ', st) {
                    Some(sp) => if sp - st == GUID_CHARS {
                        Some(l.subrange(st, sp))
                    } else {
                        None
                    },
                    None => None,
                }
            },
            None => None,
        }
    } else {
        None
    }
}

/// The identifier of the first line from `i` on that yields one.
pub open spec fn active_guid_of_lines_from(ls: Seq<Seq<char>>, i: int) -> Option<Seq<char>>
    decreases ls.len() - i when 0 <= i <= ls.len()
{
    if i >= ls.len() {
        None
    } else {
        match active_guid_of_line(ls[i]) {
            Some(g) => Some(g),
            None => active_guid_of_lines_from(ls, i + 1),
        }
    }
}

/// The active scheme identifier that `powercfg /getactivescheme` output holds.
pub open spec fn active_guid_of(output: Seq<char>) -> Option<Seq<char>> {
    active_guid_of_lines_from(split_lines(output), 0)
}

proof fn lemma_active_first_some(ls: Seq<Seq<char>>, i: int, g: Seq<char>)
    requires
        0 <= i < ls.len(),
        forall|j: int| 0 <= j < i ==> active_guid_of_line(#[trigger] ls[j]) is None,
        active_guid_of_line(ls[i]) == Some(g),
    ensures
        active_guid_of_lines_from(ls, 0) == Some(g),
{
    lemma_active_from(ls, 0, i, g);
}

proof fn lemma_active_from(ls: Seq<Seq<char>>, k: int, i: int, g: Seq<char>)
    requires
        0 <= k <= i < ls.len(),
        forall|j: int| k <= j < i ==> active_guid_of_line(#[trigger] ls[j]) is None,
        active_guid_of_line(ls[i]) == Some(g),
    ensures
        active_guid_of_lines_from(ls, k) == Some(g),
    decreases i - k,
{
    if k < i {
        lemma_active_from(ls, k + 1, i, g);
    }
}

proof fn lemma_active_all_none(ls: Seq<Seq<char>>, k: int)
    requires
        0 <= k <= ls.len(),
        forall|j: int| k <= j < ls.len() ==> active_guid_of_line(#[trigger] ls[j]) is None,
    ensures
        active_guid_of_lines_from(ls, k) is None,
    decreases ls.len() - k,
{
    if k < ls.len() {
        lemma_active_all_none(ls, k + 1);
    }
}

/// Extracts the active scheme identifier from `powercfg /getactivescheme`
/// output: the first line mentioning "GUID" (under any localized label) that
/// carries a 36-character identifier after its colon yields it.
pub fn get_current_power_scheme_guid(output: &str) -> (r: Result<String, PowerError>)
    ensures
        match r {
            Ok(g) => active_guid_of(output@) == Some(g@),
            Err(e) => e == PowerError::Parse && active_guid_of(output@) is None,
        },
{
    let lines = lines_of(output);
    let ghost ldv = lines.deep_view();
    let n = lines.len();
    let mut i: usize = 0;
    while i < n
        invariant
            0 <= i <= n,
            n == lines@.len(),
            ldv == lines.deep_view(),
            ldv == split_lines(output@),
            forall|j: int| 0 <= j < i ==> active_guid_of_line(#[trigger] ldv[j]) is None,
        decreases n - i,
    {
        let line = lines[i].as_str();
        proof {
            assert(line@ == ldv[i as int]);
        }
        if str_contains(line, "GUID") {
            let llen = line.unicode_len();
            if let Some(cp) = find_char_from(line, ':', 0) {
                proof {
                    lemma_find_from(line@, ':', 0);
                    assert(cp < llen);
                }
                let st = find_non_space_from(line, cp + 1);
                if let Some(sp) = find_char_from(line, ' ', st) {
                    proof {
                        lemma_find_from(line@, ' ', st as int);
                    }
                    if sp - st == GUID_CHARS {
                        let g = line.substring_char(st, sp).to_owned();
                        proof {
                            assert(active_guid_of_line(ldv[i as int]) == Some(g@));
                            lemma_active_first_some(ldv, i as int, g@);
                        }
                        return Ok(g);
                    }
                }
            }
        }
        proof {
            assert(active_guid_of_line(ldv[i as int]) is None);
        }
        i = i + 1;
    }
    proof {
        lemma_active_all_none(ldv, 0);
    }
    Err(PowerError::Parse)
}

/// Whether `powercfg /list` output mentions `guid`. This is deliberately the
/// plain substring containment that `str::contains` decides, not structural
/// parsing of the listing.
pub fn check_if_scheme_exists(list_output: &str, guid: &str) -> (r: bool)
    ensures
        r == contains_sub(list_output@, guid@),
{
    str_contains(list_output, guid)
}

/// The command that copies the Balanced scheme's settings into a new scheme
/// registered under `guid`.
pub open spec fn duplicate_command(guid: Seq<char>) -> Seq<char> {
    "powercfg /duplicatescheme 381b4222-f694-41f0-9685-ff5bb260df2e "@ + guid
}

/// The command that deletes the scheme registered under `guid`.
pub open spec fn delete_command(guid: Seq<char>) -> Seq<char> {
    "powercfg /delete "@ + guid
}

/// The command that makes the scheme registered under `guid` active.
pub open spec fn set_active_command(guid: Seq<char>) -> Seq<char> {
    "powercfg /setactive "@ + guid
}

/// The duplication decision: the command to issue so that a scheme under
/// `guid` exists, given the current `powercfg /list` output, or nothing when
/// the listing already mentions it.
pub open spec fn duplicate_decision(list_output: Seq<char>, guid: Seq<char>) -> Option<Seq<char>> {
    if contains_sub(list_output, guid) {
        None
    } else {
        Some(duplicate_command(guid))
    }
}

/// Decides scheme creation: when `list_output` does not mention `guid`,
/// returns the duplicate-scheme command the caller must run; when it does,
/// returns nothing, so a second call after a successful creation issues no
/// further duplication.
pub fn create_scheme_if_not_exists(list_output: &str, guid: &str) -> (r: Option<String>)
    ensures
        match r {
            Some(cmd) => duplicate_decision(list_output@, guid@) == Some(cmd@),
            None => duplicate_decision(list_output@, guid@) is None,
        },
{
    if check_if_scheme_exists(list_output, guid) {
        None
    } else {
        let cmd = String::from_str("powercfg /duplicatescheme 381b4222-f694-41f0-9685-ff5bb260df2e ").concat(guid);
        Some(cmd)
    }
}

/// Across two consecutive duplication decisions for the same identifier, the
/// duplicate command is issued exactly once when the scheme exists by the
/// time of the second listing: the first decision issues it precisely when
/// the first listing lacked the identifier, and the second issues nothing.
pub proof fn lemma_ensure_scheme_idempotent(out1: Seq<char>, out2: Seq<char>, guid: Seq<char>)
    requires
        contains_sub(out2, guid),
    ensures
        duplicate_decision(out2, guid) is None,
        !contains_sub(out1, guid) ==> duplicate_decision(out1, guid)
            == Some(duplicate_command(guid)),
        contains_sub(out1, guid) ==> duplicate_decision(out1, guid) is None,
{
}

/// Builds the command that deletes the scheme registered under `guid`.
pub fn delete_scheme(guid: &str) -> (r: String)
    ensures
        r@ == delete_command(guid@),
{
    String::from_str("powercfg /delete ").concat(guid)
}

/// The English label of a scheme line in `powercfg /list` output.
pub open spec fn scheme_label_en() -> Seq<char> {
    "Power Scheme GUID:"@
}

/// The Russian label of a scheme line in `powercfg /list` output.
pub open spec fn scheme_label_ru() -> Seq<char> {
    "GUID \u{441}\u{445}\u{435}\u{43c}\u{44b} \u{43f}\u{438}\u{442}\u{430}\u{43d}\u{438}\u{44f}:"@
}

/// The scheme a listing line yields: on a line under either label, the fourth
/// whitespace-separated token is the identifier (accepted at exactly 36
/// characters) and the remaining tokens joined with spaces, the trailing
/// active-marker " *" stripped, are the name.
pub open spec fn scheme_of_line(l: Seq<char>) -> Option<(Seq<char>, Seq<char>)> {
    if contains_sub(l, scheme_label_en()) || contains_sub(l, scheme_label_ru()) {
        let parts = tokens_of(l);
        if parts.len() >= 4 {
            let guid = parts[3];
            let name = strip_suffix_all(join_spaces_from(parts, 4), " *"@);
            if guid.len() == GUID_CHARS {
                Some((guid, name))
            } else {
                None
            }
        } else {
            None
        }
    } else {
        None
    }
}

/// The schemes the lines from `i` on yield, in line order.
pub open spec fn schemes_of_lines_from(ls: Seq<Seq<char>>, i: int) -> Seq<(Seq<char>, Seq<char>)>
    decreases ls.len() - i when 0 <= i <= ls.len()
{
    if i >= ls.len() {
        Seq::empty()
    } else {
        match scheme_of_line(ls[i]) {
            Some(p) => seq![p] + schemes_of_lines_from(ls, i + 1),
            None => schemes_of_lines_from(ls, i + 1),
        }
    }
}

/// The schemes all the lines yield, in line order.
pub open spec fn schemes_of_lines(ls: Seq<Seq<char>>) -> Seq<(Seq<char>, Seq<char>)> {
    schemes_of_lines_from(ls, 0)
}

/// The (identifier, name) pairs that `powercfg /list` output holds.
pub open spec fn schemes_of(output: Seq<char>) -> Seq<(Seq<char>, Seq<char>)> {
    schemes_of_lines(split_lines(output))
}

/// Parses `powercfg /list` output into (identifier, name) pairs: one entry
/// per line that carries a well-formed scheme description, in line order,
/// with malformed lines contributing nothing.
pub fn get_power_schemes(output: &str) -> (r: Vec<(String, String)>)
    ensures
        r.deep_view() == schemes_of(output@),
{
    let lines = lines_of(output);
    let ghost ldv = lines.deep_view();
    let n = lines.len();
    let mut out: Vec<(String, String)> = Vec::new();
    proof {
        assert(out.deep_view() =~= Seq::<(Seq<char>, Seq<char>)>::empty());
        assert(schemes_of(output@) =~= out.deep_view() + schemes_of_lines_from(ldv, 0));
    }
    let mut i: usize = 0;
    while i < n
        invariant
            0 <= i <= n,
            n == lines@.len(),
            ldv == lines.deep_view(),
            ldv == split_lines(output@),
            schemes_of(output@) =~= out.deep_view() + schemes_of_lines_from(ldv, i as int),
        decreases n - i,
    {
        let ghost prev = out.deep_view();
        let line = lines[i].as_str();
        proof {
            assert(line@ == ldv[i as int]);
        }
        let labelled = str_contains(line, "Power Scheme GUID:") || str_contains(
            line,
            "GUID \u{441}\u{445}\u{435}\u{43c}\u{44b} \u{43f}\u{438}\u{442}\u{430}\u{43d}\u{438}\u{44f}:",
        );
        if labelled {
            let parts = split_tokens(line);
            if parts.len() >= 4 {
                let guid = &parts[3];
                proof {
                    assert(guid@ == parts.deep_view()[3]);
                }
                let joined = join_with_spaces(&parts, 4);
                proof {
                    reveal_strlit(" *");
                }
                let name = strip_suffix_repeated(joined.as_str(), " *");
                if guid.unicode_len() == GUID_CHARS {
                    let entry = (guid.clone(), name);
                    out.push(entry);
                    proof {
                        assert(entry.deep_view() == scheme_of_line(ldv[i as int])->0);
                        assert(out.deep_view() =~= prev.push(entry.deep_view()));
                        assert(schemes_of_lines_from(ldv, i as int) =~= seq![
                            entry.deep_view(),
                        ] + schemes_of_lines_from(ldv, i + 1));
                    }
                } else {
                    proof {
                        assert(scheme_of_line(ldv[i as int]) is None);
                    }
                }
            } else {
                proof {
                    assert(scheme_of_line(ldv[i as int]) is None);
                }
            }
        } else {
            proof {
                assert(scheme_of_line(ldv[i as int]) is None);
            }
        }
        proof {
            assert(schemes_of(output@) =~= out.deep_view() + schemes_of_lines_from(ldv, i + 1));
        }
        i = i + 1;
    }
    proof {
        assert(schemes_of_lines_from(ldv, n as int) =~= Seq::<(Seq<char>, Seq<char>)>::empty());
        assert(schemes_of(output@) =~= out.deep_view());
    }
    out
}

proof fn lemma_schemes_of_lines_push(ls: Seq<Seq<char>>, x: Seq<char>, i: int)
    requires
        0 <= i <= ls.len(),
    ensures
        schemes_of_lines_from(ls.push(x), i) =~= schemes_of_lines_from(ls, i) + match scheme_of_line(
            x,
        ) {
            Some(p) => seq![p],
            None => Seq::<(Seq<char>, Seq<char>)>::empty(),
        },
    decreases ls.len() - i,
{
    let tail = match scheme_of_line(x) {
        Some(p) => seq![p],
        None => Seq::<(Seq<char>, Seq<char>)>::empty(),
    };
    if i == ls.len() {
        assert(ls.push(x)[i] == x);
        assert(schemes_of_lines_from(ls.push(x), i + 1) =~= Seq::<(Seq<char>, Seq<char>)>::empty());
        assert(schemes_of_lines_from(ls, i) =~= Seq::<(Seq<char>, Seq<char>)>::empty());
    } else {
        assert(ls.push(x)[i] == ls[i]);
        lemma_schemes_of_lines_push(ls, x, i + 1);
    }
}

/// A listing yields exactly one entry per line that carries a well-formed
/// scheme description, in the order of those lines: parsing the lines is
/// the filter-map of `scheme_of_line` over them, so a listing with some
/// well-formed scheme lines among any number of malformed ones yields
/// exactly the well-formed ones' schemes, order preserved, and as many
/// entries as there are well-formed lines.
pub proof fn lemma_schemes_of_lines_is_filter_map(ls: Seq<Seq<char>>)
    ensures
        schemes_of_lines(ls) == ls.filter_map(|l: Seq<char>| scheme_of_line(l)),
        schemes_of_lines(ls).len() == ls.filter(|l: Seq<char>| scheme_of_line(l) is Some).len(),
    decreases ls.len(),
{
    let f = |l: Seq<char>| scheme_of_line(l);
    let p = |l: Seq<char>| scheme_of_line(l) is Some;
    reveal(Seq::filter);
    if ls.len() == 0 {
        assert(schemes_of_lines_from(ls, 0) =~= Seq::<(Seq<char>, Seq<char>)>::empty());
        assert(ls.filter_map(f) =~= Seq::<(Seq<char>, Seq<char>)>::empty());
    } else {
        let rest = ls.drop_last();
        let last = ls.last();
        lemma_schemes_of_lines_is_filter_map(rest);
        assert(ls =~= rest.push(last));
        lemma_schemes_of_lines_push(rest, last, 0);
        assert(schemes_of_lines(rest.push(last)) == schemes_of_lines(ls));
        match scheme_of_line(last) {
            Some(q) => {
                assert(ls.filter_map(f) =~= rest.filter_map(f) + seq![q]);
                assert(schemes_of_lines(ls) =~= ls.filter_map(f));
            },
            None => {
                assert(ls.filter_map(f) =~= rest.filter_map(f));
                assert(schemes_of_lines(ls) =~= ls.filter_map(f));
            },
        }
        assert(ls.filter(p) == if p(last) {
            rest.filter(p).push(last)
        } else {
            rest.filter(p)
        });
    }
}

/// A well-formed active-scheme line yields exactly its identifier, under any
/// localized label that mentions "GUID" and holds no colon of its own: in
/// `<label>: <36-char-id> (<name>)` the parse returns precisely the
/// identifier, whatever the name holds.
pub proof fn lemma_active_guid_well_formed_line(label: Seq<char>, id: Seq<char>, name: Seq<char>)
    requires
        contains_sub(label, "GUID"@),
        forall|j: int| 0 <= j < label.len() ==> label[j] != ':',
        id.len() == GUID_CHARS,
        forall|j: int| 0 <= j < id.len() ==> !crate::text::is_space(#[trigger] id[j]),
    ensures
        active_guid_of_line(label + ": "@ + id + " ("@ + name + ")"@) == Some(id),
{
    reveal_strlit(": ");
    reveal_strlit(" (");
    reveal_strlit(")");
    reveal_strlit("GUID");
    let l = label + ": "@ + id + " ("@ + name + ")"@;
    let cp = label.len() as int;
    let st = cp + 2;
    let sp = st + GUID_CHARS as int;

    // the label's "GUID" occurrence is one of the whole line
    let w = choose|i: int| contains_at(label, i, "GUID"@);
    assert(l.subrange(w, w + 4) =~= label.subrange(w, w + 4));
    assert(contains_at(l, w, "GUID"@));

    // the first colon is the one after the label
    assert(l[cp] == ':');
    crate::text::lemma_find_from_is(l, ':', 0, cp);

    // one space follows the colon, then the identifier begins
    assert(l[cp + 1] == ' ');
    assert(l[st] == id[0]);
    crate::text::lemma_skip_spaces_is(l, cp + 1, st);

    // the identifier runs whitespace-free to the space before the name
    assert(l[sp] == ' ');
    assert(forall|j: int| st <= j < sp ==> l[j] == id[j - st]);
    crate::text::lemma_find_from_is(l, ' ', st, sp);

    assert(l.subrange(st, sp) =~= id);
}

/// A listing that consists of one well-formed active-scheme line yields
/// exactly its identifier through the whole parse, label and name
/// notwithstanding: the guarantee of `lemma_active_guid_well_formed_line`,
/// carried through line splitting to what `get_current_power_scheme_guid`
/// ensures about its output.
pub proof fn lemma_active_guid_well_formed_output(label: Seq<char>, id: Seq<char>, name: Seq<char>)
    requires
        contains_sub(label, "GUID"@),
        forall|j: int| 0 <= j < label.len() ==> label[j] != ':',
        forall|j: int| 0 <= j < label.len() ==> label[j] != '\n',
        id.len() == GUID_CHARS,
        forall|j: int| 0 <= j < id.len() ==> !crate::text::is_space(#[trigger] id[j]),
        forall|j: int| 0 <= j < name.len() ==> name[j] != '\n',
    ensures
        active_guid_of(label + ": "@ + id + " ("@ + name + ")"@) == Some(id),
{
    reveal_strlit(": ");
    reveal_strlit(" (");
    reveal_strlit(")");
    lemma_active_guid_well_formed_line(label, id, name);
    let l = label + ": "@ + id + " ("@ + name + ")"@;
    assert(forall|j: int| 0 <= j < l.len() ==> l[j] != '\n');
    lemma_find_from(l, '\n', 0);
    assert(find_from(l, '\n', 0) is None);
    assert(l.subrange(0, l.len() as int) =~= l);
    assert(l[l.len() - 1] == ')');
    assert(crate::text::strip_cr(l) == l);
    assert(split_lines(l) =~= seq![l]);
    assert(active_guid_of_lines_from(seq![l], 1) is None);
    assert(active_guid_of_lines_from(seq![l], 0) == Some(id));
}

/// The identifiers cleanup deletes, scanning schemes in order with a set of
/// names already seen: a scheme whose name was seen before is deleted unless
/// its identifier is reserved; the first scheme under each name registers
/// the name and is kept.
pub open spec fn delete_plan_from(
    schemes: Seq<(Seq<char>, Seq<char>)>,
    i: int,
    seen: Set<Seq<char>>,
) -> Seq<Seq<char>>
    decreases schemes.len() - i when 0 <= i <= schemes.len()
{
    if i >= schemes.len() {
        Seq::empty()
    } else {
        let guid = schemes[i].0;
        let name = schemes[i].1;
        if seen.contains(name) {
            if is_reserved_guid(guid) {
                delete_plan_from(schemes, i + 1, seen)
            } else {
                seq![guid] + delete_plan_from(schemes, i + 1, seen)
            }
        } else {
            delete_plan_from(schemes, i + 1, seen.insert(name))
        }
    }
}

/// The identifiers cleanup deletes from a full listing.
pub open spec fn delete_plan(schemes: Seq<(Seq<char>, Seq<char>)>) -> Seq<Seq<char>> {
    delete_plan_from(schemes, 0, Set::empty())
}

/// No reserved identifier ever enters a delete plan, whatever names the
/// schemes carry and whatever was already seen.
pub proof fn lemma_delete_plan_spares_reserved(
    schemes: Seq<(Seq<char>, Seq<char>)>,
    i: int,
    seen: Set<Seq<char>>,
)
    requires
        0 <= i <= schemes.len(),
    ensures
        forall|k: int|
            0 <= k < delete_plan_from(schemes, i, seen).len() ==> !is_reserved_guid(
                #[trigger] delete_plan_from(schemes, i, seen)[k],
            ),
    decreases schemes.len() - i,
{
    if i < schemes.len() {
        let guid = schemes[i].0;
        let name = schemes[i].1;
        let plan = delete_plan_from(schemes, i, seen);
        if seen.contains(name) {
            lemma_delete_plan_spares_reserved(schemes, i + 1, seen);
            let rest = delete_plan_from(schemes, i + 1, seen);
            if !is_reserved_guid(guid) {
                assert(plan =~= seq![guid] + rest);
                assert forall|k: int| 0 <= k < plan.len() implies !is_reserved_guid(
                    #[trigger] plan[k],
                ) by {
                    if k > 0 {
                        assert(plan[k] == rest[k - 1]);
                        assert(!is_reserved_guid(delete_plan_from(schemes, i + 1, seen)[k - 1]));
                    }
                }
            } else {
                assert(plan =~= rest);
                assert forall|k: int| 0 <= k < plan.len() implies !is_reserved_guid(
                    #[trigger] plan[k],
                ) by {
                    assert(!is_reserved_guid(delete_plan_from(schemes, i + 1, seen)[k]));
                }
            }
        } else {
            lemma_delete_plan_spares_reserved(schemes, i + 1, seen.insert(name));
            let rest = delete_plan_from(schemes, i + 1, seen.insert(name));
            assert(plan =~= rest);
            assert forall|k: int| 0 <= k < plan.len() implies !is_reserved_guid(
                #[trigger] plan[k],
            ) by {
                assert(!is_reserved_guid(delete_plan_from(schemes, i + 1, seen.insert(name))[k]));
            }
        }
    }
}

/// Whether some element of `v` views to `name`.
fn vec_contains_name(v: &Vec<String>, name: &str) -> (r: bool)
    ensures
        r == exists|j: int| 0 <= j < v@.len() && v@[j]@ == name@,
{
    let n = v.len();
    let mut i: usize = 0;
    while i < n
        invariant
            0 <= i <= n,
            n == v@.len(),
            forall|j: int| 0 <= j < i ==> v@[j]@ != name@,
        decreases n - i,
    {
        if str_eq(v[i].as_str(), name) {
            return true;
        }
        i = i + 1;
    }
    false
}

/// Plans duplicate removal: given the parsed schemes, returns the
/// identifiers to delete, in listing order. A scheme is deleted exactly when
/// an earlier scheme carried the same name and its own identifier is not one
/// of the three reserved ones; reserved identifiers are never returned.
pub fn cleanup_duplicate_schemes(schemes: &Vec<(String, String)>) -> (r: Vec<String>)
    ensures
        r.deep_view() == delete_plan(schemes.deep_view()),
        forall|k: int|
            0 <= k < r.deep_view().len() ==> !is_reserved_guid(#[trigger] r.deep_view()[k]),
{
    let ghost sdv = schemes.deep_view();
    let n = schemes.len();
    let mut out: Vec<String> = Vec::new();
    let mut seen_names: Vec<String> = Vec::new();
    let ghost mut seen_set: Set<Seq<char>> = Set::empty();
    proof {
        assert(out.deep_view() =~= Seq::<Seq<char>>::empty());
        assert(delete_plan(sdv) =~= out.deep_view() + delete_plan_from(sdv, 0, seen_set));
    }
    let mut i: usize = 0;
    while i < n
        invariant
            0 <= i <= n,
            n == schemes@.len(),
            sdv == schemes.deep_view(),
            forall|x: Seq<char>|
                seen_set.contains(x) <==> exists|j: int|
                    0 <= j < seen_names@.len() && seen_names@[j]@ == x,
            delete_plan(sdv) =~= out.deep_view() + delete_plan_from(sdv, i as int, seen_set),
        decreases n - i,
    {
        let ghost prev = out.deep_view();
        let guid = &schemes[i].0;
        let name = &schemes[i].1;
        proof {
            assert(sdv[i as int] == (schemes@[i as int].0@, schemes@[i as int].1@));
        }
        if vec_contains_name(&seen_names, name.as_str()) {
            assert(seen_set.contains(name@));
            if !is_reserved_scheme_id(guid.as_str()) {
                out.push(guid.clone());
                proof {
                    assert(out.deep_view() =~= prev.push(guid@));
                    assert(delete_plan_from(sdv, i as int, seen_set) =~= seq![guid@]
                        + delete_plan_from(sdv, i + 1, seen_set));
                }
            } else {
                proof {
                    assert(delete_plan_from(sdv, i as int, seen_set) =~= delete_plan_from(
                        sdv,
                        i + 1,
                        seen_set,
                    ));
                }
            }
        } else {
            assert(!seen_set.contains(name@));
            let ghost old_seen = seen_set;
            let ghost old_names = seen_names@;
            seen_names.push(name.clone());
            proof {
                seen_set = seen_set.insert(name@);
                assert(delete_plan_from(sdv, i as int, old_seen) =~= delete_plan_from(
                    sdv,
                    i + 1,
                    seen_set,
                ));
                assert forall|x: Seq<char>| seen_set.contains(x) implies exists|j: int|
                    0 <= j < seen_names@.len() && seen_names@[j]@ == x by {
                    if x == name@ {
                        assert(seen_names@[seen_names@.len() - 1]@ == x);
                    } else {
                        let j = choose|j: int| 0 <= j < old_names.len() && old_names[j]@ == x;
                        assert(seen_names@[j]@ == x);
                    }
                }
                assert forall|x: Seq<char>|
                    (exists|j: int| 0 <= j < seen_names@.len() && seen_names@[j]@ == x)
                    implies seen_set.contains(x) by {
                    let j = choose|j: int| 0 <= j < seen_names@.len() && seen_names@[j]@ == x;
                    if j < seen_names@.len() - 1 {
                        assert(old_names[j]@ == x);
                        assert(old_seen.contains(x));
                    } else {
                        assert(x == name@);
                    }
                }
            }
        }
        proof {
            assert(delete_plan(sdv) =~= out.deep_view() + delete_plan_from(
                sdv,
                i + 1,
                seen_set,
            ));
        }
        i = i + 1;
    }
    proof {
        assert(delete_plan_from(sdv, n as int, seen_set) =~= Seq::<Seq<char>>::empty());
        assert(delete_plan(sdv) =~= out.deep_view());
        lemma_delete_plan_spares_reserved(sdv, 0, Set::empty());
    }
    out
}

} // verus!
