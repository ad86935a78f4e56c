//! The descriptions of well-known COFF sections and COFF groups, and the text that shows the
//! access rights of a section.

use crate::section::SectionCharacteristics;
use crate::text::{push_char, str_chars, str_eq};
use vstd::prelude::*;

verus! {

/// The options of the listing of sections.
#[derive(Clone, Copy, Debug, PartialEq, Eq, Structural, Default)]
pub struct DumpSectionsOptions {
    /// Show COFF groups (subsections within sections)
    pub groups: bool,
    /// Show section contributions, nested within sections. If `groups` is also set, then
    /// section contributions will be nested within COFF groups.
    pub contribs: bool,
}

/// The description that the first entry of `table` named `name` gives, if any entry is.
pub open spec fn description_in(table: Seq<(Seq<char>, Seq<char>)>, name: Seq<char>) -> Option<Seq<char>>
    decreases table.len(),
{
    if table.len() == 0 {
        None
    } else if table[0].0 == name {
        Some(table[0].1)
    } else {
        description_in(table.drop_first(), name)
    }
}

/// The names of well-known sections, each with its description.
pub open spec fn section_table() -> Seq<(Seq<char>, Seq<char>)> {
    seq![
        (".text"@, "executable code"@),
        (".idata"@, "import tables"@),
        (".rdata"@, "read-only data"@),
        (".data"@, "read-write data"@),
        (".pdata"@, "procedure description tables"@),
        (".xdata"@, "exception unwinding data"@)
    ]
}

/// The names of well-known COFF groups, each with its description, sorted by name.
pub open spec fn coff_group_table() -> Seq<(Seq<char>, Seq<char>)> {
    seq![
        (".00cfg"@, "Control-Flow Guard (CFG)"@),
        (".CRT$XCA"@, "(__xc_a) C++ initializer function list: start"@),
        (".CRT$XCAA"@, "pre-C++ initializers"@),
        (".CRT$XCU"@, "debug code masquerading as CRT code"@),
        (".CRT$XCU65534"@, ""@),
        (".CRT$XCU65535"@, ""@),
        (".CRT$XCZ"@, "(__xc_z) C++ initializer function list: end"@),
        (".CRT$XDA"@, "(__xd_a) TLS initializer function list: start"@),
        (".CRT$XDZ"@, "(__xd_z) TLS initializer function list: end"@),
        (".CRT$XIA"@, "(__xi_a) C initializer function list: start"@),
        (".CRT$XIAA"@, "pre-C initializers"@),
        (".CRT$XIAB"@, "PGO initializers"@),
        (".CRT$XIAC"@, "post-PGO initializers"@),
        (".CRT$XIZ"@, "(__xi_z) C initializer function list: end"@),
        (".CRT$XLA"@, "loader TLS callback list: start"@),
        (".CRT$XLB"@, "(__zl_a) pointer to TLS callback array"@),
        (".CRT$XLC"@, "(__xl_c) TLS initializers"@),
        (".CRT$XLD"@, "(__xl_d) TLS destructors"@),
        (".CRT$XLZ"@, "(__xl_z) loader TLS callback list: end"@),
        (".CRT$XPA"@, "(__xp_a) C pre-terminator list: start"@),
        (".CRT$XPTZ65535"@, ""@),
        (".CRT$XPZ"@, "(__xp_z) C pre-terminator list: end"@),
        (".CRT$XTA"@, "(__xt_a) terminator function list: start"@),
        (".CRT$XTZ"@, "(__xt_z) terminator function list: end"@),
        (".edata"@, ""@),
        (".gehcont"@, "EHCONT guard"@),
        (".gehcont$y"@, "EHCONT guard target"@),
        (".gfids$y"@, "relates to Control Flow Guard (CFG)"@),
        (".idata$2"@, "import descriptors"@),
        (".idata$3"@, "import descriptors null terminator"@),
        (".idata$4"@, "Import Name Table (INT)"@),
        (".idata$5"@, "Import Address Table (IAT)"@),
        (".idata$6"@, "import data strings"@),
        (".rdata$CastGuardVftablesA"@, ""@),
        (".rdata$CastGuardVftablesC"@, ""@),
        (".rdata$T"@, ""@),
        (".rdata$r"@, "RTTI read-only data"@),
        (".rdata$voltmd"@, "(__volatile_metadata) volatile metadata for CFG"@),
        (".rdata$zzzdbg"@, "read-only data 'dead' from PGO training"@),
        (".rtc$IAA"@, "run-time checks (RTC) initializer list: start"@),
        (".rtc$IZZ"@, "run-time checks (RTC) initializer list: end"@),
        (".rtc$TAA"@, "run-time checks (RTC) terminator list: start"@),
        (".rtc$TZZ"@, "run-time checks (RTC) terminator list: end"@),
        (".text$di"@, ""@),
        (".text$mn"@, "\"main\" code"@),
        (".text$mn$00"@, ""@),
        (".text$unlikely"@, "code believed to be cold"@),
        (".text$x"@, "exception unwinding funclets (__finally, etc.)"@),
        (".text$yd"@, "dynamic atexit destructors"@),
        (".tls"@, "thread-local storage"@),
        (".tls$"@, "thread-local storage"@),
        (".tls$ZZZ"@, ""@),
        (".xdata"@, ""@)
    ]
}

/// The view of each name and description of `v`.
pub open spec fn table_views(v: Seq<(&'static str, &'static str)>) -> Seq<(Seq<char>, Seq<char>)> {
    v.map_values(|e: (&'static str, &'static str)| (e.0@, e.1@))
}

/// The names of well-known sections, each with its description.
pub fn section_descriptions() -> (r: Vec<(&'static str, &'static str)>)
    ensures
        table_views(r@) == section_table(),
{
    let r = vec![
        (".text", "executable code"),
        (".idata", "import tables"),
        (".rdata", "read-only data"),
        (".data", "read-write data"),
        (".pdata", "procedure description tables"),
        (".xdata", "exception unwinding data")
    ];
    assert(table_views(r@) =~= section_table());
    r
}

/// The names of well-known COFF groups, each with its description, sorted by name.
///
/// See the CRT initialization documentation for the `.CRT$X*` groups.
pub fn coff_group_descriptions() -> (r: Vec<(&'static str, &'static str)>)
    ensures
        table_views(r@) == coff_group_table(),
{
    let r = vec![
        (".00cfg", "Control-Flow Guard (CFG)"),
        (".CRT$XCA", "(__xc_a) C++ initializer function list: start"),
        (".CRT$XCAA", "pre-C++ initializers"),
        (".CRT$XCU", "debug code masquerading as CRT code"),
        (".CRT$XCU65534", ""),
        (".CRT$XCU65535", ""),
        (".CRT$XCZ", "(__xc_z) C++ initializer function list: end"),
        (".CRT$XDA", "(__xd_a) TLS initializer function list: start"),
        (".CRT$XDZ", "(__xd_z) TLS initializer function list: end"),
        (".CRT$XIA", "(__xi_a) C initializer function list: start"),
        (".CRT$XIAA", "pre-C initializers"),
        (".CRT$XIAB", "PGO initializers"),
        (".CRT$XIAC", "post-PGO initializers"),
        (".CRT$XIZ", "(__xi_z) C initializer function list: end"),
        (".CRT$XLA", "loader TLS callback list: start"),
        (".CRT$XLB", "(__zl_a) pointer to TLS callback array"),
        (".CRT$XLC", "(__xl_c) TLS initializers"),
        (".CRT$XLD", "(__xl_d) TLS destructors"),
        (".CRT$XLZ", "(__xl_z) loader TLS callback list: end"),
        (".CRT$XPA", "(__xp_a) C pre-terminator list: start"),
        (".CRT$XPTZ65535", ""),
        (".CRT$XPZ", "(__xp_z) C pre-terminator list: end"),
        (".CRT$XTA", "(__xt_a) terminator function list: start"),
        (".CRT$XTZ", "(__xt_z) terminator function list: end"),
        (".edata", ""),
        (".gehcont", "EHCONT guard"),
        (".gehcont$y", "EHCONT guard target"),
        (".gfids$y", "relates to Control Flow Guard (CFG)"),
        (".idata$2", "import descriptors"),
        (".idata$3", "import descriptors null terminator"),
        (".idata$4", "Import Name Table (INT)"),
        (".idata$5", "Import Address Table (IAT)"),
        (".idata$6", "import data strings"),
        (".rdata$CastGuardVftablesA", ""),
        (".rdata$CastGuardVftablesC", ""),
        (".rdata$T", ""),
        (".rdata$r", "RTTI read-only data"),
        (".rdata$voltmd", "(__volatile_metadata) volatile metadata for CFG"),
        (".rdata$zzzdbg", "read-only data 'dead' from PGO training"),
        (".rtc$IAA", "run-time checks (RTC) initializer list: start"),
        (".rtc$IZZ", "run-time checks (RTC) initializer list: end"),
        (".rtc$TAA", "run-time checks (RTC) terminator list: start"),
        (".rtc$TZZ", "run-time checks (RTC) terminator list: end"),
        (".text$di", ""),
        (".text$mn", "\"main\" code"),
        (".text$mn$00", ""),
        (".text$unlikely", "code believed to be cold"),
        (".text$x", "exception unwinding funclets (__finally, etc.)"),
        (".text$yd", "dynamic atexit destructors"),
        (".tls", "thread-local storage"),
        (".tls$", "thread-local storage"),
        (".tls$ZZZ", ""),
        (".xdata", "")
    ];
    assert(table_views(r@) =~= coff_group_table());
    r
}

/// The description of the first entry of `table` named `name`, if any entry is.
fn find_description(table: &Vec<(&'static str, &'static str)>, name: &str) -> (r: Option<&'static str>)
    ensures
        match description_in(table_views(table@), name@) {
            Some(d) => r matches Some(t) && t@ == d,
            None => r is None,
        },
{
    let mut i: usize = 0;
    assert(table_views(table@).skip(0) =~= table_views(table@));
    while i < table.len()
        invariant
            i <= table@.len(),
            description_in(table_views(table@), name@) == description_in(
                table_views(table@).skip(i as int),
                name@,
            ),
        decreases table@.len() - i,
    {
        let (n, d) = table[i];
        let ghost rest = table_views(table@).skip(i as int);
        assert(rest[0] == (n@, d@));
        if str_eq(n, name) {
            return Some(d);
        }
        assert(rest.drop_first() =~= table_views(table@).skip(i + 1));
        i = i + 1;
    }
    assert(table_views(table@).skip(i as int) =~= Seq::empty());
    None
}

/// The description of the well-known section `name`, if it is one.
pub fn section_description(name: &str) -> (r: Option<&'static str>)
    ensures
        match description_in(section_table(), name@) {
            Some(d) => r matches Some(t) && t@ == d,
            None => r is None,
        },
{
    let table = section_descriptions();
    find_description(&table, name)
}

/// How a string compares with another in the order of strings.
#[derive(Clone, Copy, Debug, PartialEq, Eq, Structural)]
pub enum StrOrder {
    /// It comes before the other.
    Less,
    /// It is the other.
    Equal,
    /// It comes after the other.
    Greater,
}

/// Compares the strings whose characters are `a` and `b`.
fn compare_chars(a: &Vec<char>, b: &Vec<char>) -> (r: StrOrder)
    ensures
        r == StrOrder::Less <==> str_lt(a@, b@),
        r == StrOrder::Equal <==> a@ == b@,
        r == StrOrder::Greater <==> str_lt(b@, a@),
{
    proof {
        lemma_str_lt_trichotomy(a@, b@);
    }
    let mut i: usize = 0;
    assert(a@.skip(0) =~= a@);
    assert(b@.skip(0) =~= b@);
    while i < a.len() && i < b.len()
        invariant
            i <= a@.len(),
            i <= b@.len(),
            a@.take(i as int) == b@.take(i as int),
            str_lt(a@, b@) == str_lt(a@.skip(i as int), b@.skip(i as int)),
            str_lt(b@, a@) == str_lt(b@.skip(i as int), a@.skip(i as int)),
        decreases a@.len() - i,
    {
        let x = a[i];
        let y = b[i];
        assert(a@.skip(i as int)[0] == x);
        assert(b@.skip(i as int)[0] == y);
        if x != y {
            if x < y {
                return StrOrder::Less;
            } else {
                return StrOrder::Greater;
            }
        }
        assert(a@.skip(i as int).drop_first() =~= a@.skip(i + 1));
        assert(b@.skip(i as int).drop_first() =~= b@.skip(i + 1));
        assert(a@.take(i + 1) =~= a@.take(i as int).push(x));
        assert(b@.take(i + 1) =~= b@.take(i as int).push(y));
        i = i + 1;
    }
    if i < b.len() {
        assert(a@.skip(i as int).len() == 0);
        StrOrder::Less
    } else if i < a.len() {
        assert(b@.skip(i as int).len() == 0);
        StrOrder::Greater
    } else {
        assert(a@ =~= a@.take(i as int));
        assert(b@ =~= b@.take(i as int));
        StrOrder::Equal
    }
}

/// The description of the well-known COFF group `name`, if it is one. The table is sorted by
/// name, so it is searched by halves.
pub fn coff_group_description(name: &str) -> (r: Option<&'static str>)
    ensures
        match description_in(coff_group_table(), name@) {
            Some(d) => r matches Some(t) && t@ == d,
            None => r is None,
        },
{
    let table = coff_group_descriptions();
    let ghost t = coff_group_table();
    proof {
        lemma_coff_group_table_sorted();
        lemma_sorted_all_pairs(t);
    }
    let target = str_chars(name);
    let mut lo: usize = 0;
    let mut hi: usize = table.len();
    while lo < hi
        invariant
            t == coff_group_table(),
            table_views(table@) == t,
            target@ == name@,
            0 <= lo <= hi <= t.len(),
            forall|i: int, j: int| 0 <= i < j < t.len() ==> str_lt(#[trigger] t[i].0, #[trigger] t[j].0),
            forall|k: int| 0 <= k < lo ==> str_lt(#[trigger] t[k].0, name@),
            forall|k: int| hi <= k < t.len() ==> str_lt(name@, #[trigger] t[k].0),
        decreases hi - lo,
    {
        let mid = lo + (hi - lo) / 2;
        let (n, d) = table[mid];
        assert(t[mid as int] == (n@, d@));
        let probe = str_chars(n);
        match compare_chars(&probe, &target) {
            StrOrder::Less => {
                assert forall|k: int| 0 <= k < mid + 1 implies str_lt(#[trigger] t[k].0, name@) by {
                    if k < mid {
                        lemma_str_lt_transitive(t[k].0, t[mid as int].0, name@);
                    }
                }
                lo = mid + 1;
            },
            StrOrder::Greater => {
                assert forall|k: int| mid <= k < t.len() implies str_lt(name@, #[trigger] t[k].0) by {
                    if k > mid {
                        lemma_str_lt_transitive(name@, t[mid as int].0, t[k].0);
                    }
                }
                hi = mid;
            },
            StrOrder::Equal => {
                proof {
                    assert forall|k: int| 0 <= k < mid implies t[k].0 != name@ by {
                        assert(str_lt(t[k].0, t[mid as int].0));
                        lemma_str_lt_trichotomy(t[k].0, name@);
                    }
                    lemma_description_at(t, name@, mid as int);
                }
                return Some(d);
            },
        }
    }
    proof {
        assert forall|k: int| 0 <= k < t.len() implies t[k].0 != name@ by {
            if k < lo {
                lemma_str_lt_trichotomy(t[k].0, name@);
            } else {
                lemma_str_lt_trichotomy(name@, t[k].0);
            }
        }
        lemma_description_none(t, name@);
    }
    None
}

/// Where entry `i` of `table` is named `name` and no entry before it is, the description of
/// `name` is the one of entry `i`.
proof fn lemma_description_at(table: Seq<(Seq<char>, Seq<char>)>, name: Seq<char>, i: int)
    requires
        0 <= i < table.len(),
        table[i].0 == name,
        forall|k: int| 0 <= k < i ==> table[k].0 != name,
    ensures
        description_in(table, name) == Some(table[i].1),
    decreases i,
{
    if i > 0 {
        let rest = table.drop_first();
        assert forall|k: int| 0 <= k < i - 1 implies rest[k].0 != name by {
            assert(rest[k] == table[k + 1]);
        }
        assert(rest[i - 1] == table[i]);
        lemma_description_at(rest, name, i - 1);
    }
}

/// Where no entry of `table` is named `name`, there is no description of `name`.
proof fn lemma_description_none(table: Seq<(Seq<char>, Seq<char>)>, name: Seq<char>)
    requires
        forall|k: int| 0 <= k < table.len() ==> table[k].0 != name,
    ensures
        description_in(table, name) is None,
    decreases table.len(),
{
    if table.len() > 0 {
        let rest = table.drop_first();
        assert forall|k: int| 0 <= k < rest.len() implies rest[k].0 != name by {
            assert(rest[k] == table[k + 1]);
        }
        lemma_description_none(rest, name);
    }
}

/// Where `table` gives `name` a description, an entry of `table` holds that name and that
/// description.
proof fn lemma_description_found(table: Seq<(Seq<char>, Seq<char>)>, name: Seq<char>)
    ensures
        description_in(table, name) matches Some(d) ==> exists|i: int|
            0 <= i < table.len() && #[trigger] table[i] == (name, d),
    decreases table.len(),
{
    if table.len() > 0 && table[0].0 != name {
        let rest = table.drop_first();
        lemma_description_found(rest, name);
        if let Some(d) = description_in(table, name) {
            let i = choose|i: int| 0 <= i < rest.len() && #[trigger] rest[i] == (name, d);
            assert(table[i + 1] == (name, d));
        }
    } else if table.len() > 0 {
        assert(table[0] == (name, table[0].1));
    }
}

/// The table of COFF groups names each group once, so `coff_group_description` finds a name
/// with a description exactly when the two stand together in the table, and finds nothing
/// exactly when the name is not in the table (names match exactly, case included).
pub proof fn lemma_coff_group_description_exact(name: Seq<char>, d: Seq<char>)
    ensures
        description_in(coff_group_table(), name) == Some(d) <==> coff_group_table().contains(
            (name, d),
        ),
        description_in(coff_group_table(), name) is None <==> forall|k: int|
            0 <= k < coff_group_table().len() ==> (#[trigger] coff_group_table()[k]).0 != name,
{
    let t = coff_group_table();
    lemma_coff_group_table_sorted();
    lemma_sorted_all_pairs(t);
    lemma_description_found(t, name);
    assert forall|i: int| 0 <= i < t.len() && #[trigger] t[i].0 == name implies description_in(
        t,
        name,
    ) == Some(t[i].1) by {
        assert forall|k: int| 0 <= k < i implies t[k].0 != name by {
            assert(str_lt(t[k].0, t[i].0));
            lemma_str_lt_trichotomy(t[k].0, name);
        }
        lemma_description_at(t, name, i);
    }
    if t.contains((name, d)) {
        let i = choose|i: int| 0 <= i < t.len() && t[i] == (name, d);
        assert(t[i].0 == name);
    }
    if forall|k: int| 0 <= k < t.len() ==> (#[trigger] t[k]).0 != name {
        lemma_description_none(t, name);
    } else {
        let k = choose|k: int| 0 <= k < t.len() && (#[trigger] t[k]).0 == name;
        assert(t[k].0 == name);
    }
}

/// `a` comes before `b` in the order of strings: at the first character where they differ,
/// `a` has the lower code point, or `a` is a proper prefix of `b`.
pub open spec fn str_lt(a: Seq<char>, b: Seq<char>) -> bool
    decreases a.len(),
{
    if a.len() == 0 {
        b.len() > 0
    } else if b.len() == 0 {
        false
    } else if a[0] != b[0] {
        (a[0] as int) < (b[0] as int)
    } else {
        str_lt(a.drop_first(), b.drop_first())
    }
}

/// The names of the well-known COFF groups are sorted, each before the next.
pub proof fn lemma_coff_group_table_sorted()
    ensures
        forall|i: int|
            0 <= i < coff_group_table().len() - 1 ==> str_lt(
                #[trigger] coff_group_table()[i].0,
                coff_group_table()[i + 1].0,
            ),
{
    reveal_strlit(".00cfg");
    reveal_strlit(".CRT$XCA");
    reveal_strlit(".CRT$XCAA");
    reveal_strlit(".CRT$XCU");
    reveal_strlit(".CRT$XCU65534");
    reveal_strlit(".CRT$XCU65535");
    reveal_strlit(".CRT$XCZ");
    reveal_strlit(".CRT$XDA");
    reveal_strlit(".CRT$XDZ");
    reveal_strlit(".CRT$XIA");
    reveal_strlit(".CRT$XIAA");
    reveal_strlit(".CRT$XIAB");
    reveal_strlit(".CRT$XIAC");
    reveal_strlit(".CRT$XIZ");
    reveal_strlit(".CRT$XLA");
    reveal_strlit(".CRT$XLB");
    reveal_strlit(".CRT$XLC");
    reveal_strlit(".CRT$XLD");
    reveal_strlit(".CRT$XLZ");
    reveal_strlit(".CRT$XPA");
    reveal_strlit(".CRT$XPTZ65535");
    reveal_strlit(".CRT$XPZ");
    reveal_strlit(".CRT$XTA");
    reveal_strlit(".CRT$XTZ");
    reveal_strlit(".edata");
    reveal_strlit(".gehcont");
    reveal_strlit(".gehcont$y");
    reveal_strlit(".gfids$y");
    reveal_strlit(".idata$2");
    reveal_strlit(".idata$3");
    reveal_strlit(".idata$4");
    reveal_strlit(".idata$5");
    reveal_strlit(".idata$6");
    reveal_strlit(".rdata$CastGuardVftablesA");
    reveal_strlit(".rdata$CastGuardVftablesC");
    reveal_strlit(".rdata$T");
    reveal_strlit(".rdata$r");
    reveal_strlit(".rdata$voltmd");
    reveal_strlit(".rdata$zzzdbg");
    reveal_strlit(".rtc$IAA");
    reveal_strlit(".rtc$IZZ");
    reveal_strlit(".rtc$TAA");
    reveal_strlit(".rtc$TZZ");
    reveal_strlit(".text$di");
    reveal_strlit(".text$mn");
    reveal_strlit(".text$mn$00");
    reveal_strlit(".text$unlikely");
    reveal_strlit(".text$x");
    reveal_strlit(".text$yd");
    reveal_strlit(".tls");
    reveal_strlit(".tls$");
    reveal_strlit(".tls$ZZZ");
    reveal_strlit(".xdata");
    reveal_with_fuel(str_lt, 30);
    let t = coff_group_table();
    assert(str_lt(t[0].0, t[1].0));
    assert(str_lt(t[1].0, t[2].0));
    assert(str_lt(t[2].0, t[3].0));
    assert(str_lt(t[3].0, t[4].0));
    assert(str_lt(t[4].0, t[5].0));
    assert(str_lt(t[5].0, t[6].0));
    assert(str_lt(t[6].0, t[7].0));
    assert(str_lt(t[7].0, t[8].0));
    assert(str_lt(t[8].0, t[9].0));
    assert(str_lt(t[9].0, t[10].0));
    assert(str_lt(t[10].0, t[11].0));
    assert(str_lt(t[11].0, t[12].0));
    assert(str_lt(t[12].0, t[13].0));
    assert(str_lt(t[13].0, t[14].0));
    assert(str_lt(t[14].0, t[15].0));
    assert(str_lt(t[15].0, t[16].0));
    assert(str_lt(t[16].0, t[17].0));
    assert(str_lt(t[17].0, t[18].0));
    assert(str_lt(t[18].0, t[19].0));
    assert(str_lt(t[19].0, t[20].0));
    assert(str_lt(t[20].0, t[21].0));
    assert(str_lt(t[21].0, t[22].0));
    assert(str_lt(t[22].0, t[23].0));
    assert(str_lt(t[23].0, t[24].0));
    assert(str_lt(t[24].0, t[25].0));
    assert(str_lt(t[25].0, t[26].0));
    assert(str_lt(t[26].0, t[27].0));
    assert(str_lt(t[27].0, t[28].0));
    assert(str_lt(t[28].0, t[29].0));
    assert(str_lt(t[29].0, t[30].0));
    assert(str_lt(t[30].0, t[31].0));
    assert(str_lt(t[31].0, t[32].0));
    assert(str_lt(t[32].0, t[33].0));
    assert(str_lt(t[33].0, t[34].0));
    assert(str_lt(t[34].0, t[35].0));
    assert(str_lt(t[35].0, t[36].0));
    assert(str_lt(t[36].0, t[37].0));
    assert(str_lt(t[37].0, t[38].0));
    assert(str_lt(t[38].0, t[39].0));
    assert(str_lt(t[39].0, t[40].0));
    assert(str_lt(t[40].0, t[41].0));
    assert(str_lt(t[41].0, t[42].0));
    assert(str_lt(t[42].0, t[43].0));
    assert(str_lt(t[43].0, t[44].0));
    assert(str_lt(t[44].0, t[45].0));
    assert(str_lt(t[45].0, t[46].0));
    assert(str_lt(t[46].0, t[47].0));
    assert(str_lt(t[47].0, t[48].0));
    assert(str_lt(t[48].0, t[49].0));
    assert(str_lt(t[49].0, t[50].0));
    assert(str_lt(t[50].0, t[51].0));
    assert(str_lt(t[51].0, t[52].0));
}

/// Of two strings, either they are the same, or exactly one comes before the other.
pub proof fn lemma_str_lt_trichotomy(a: Seq<char>, b: Seq<char>)
    ensures
        a == b ==> !str_lt(a, b),
        a != b ==> str_lt(a, b) != str_lt(b, a),
    decreases a.len(),
{
    if a.len() > 0 && b.len() > 0 && a[0] == b[0] {
        lemma_str_lt_trichotomy(a.drop_first(), b.drop_first());
        if a.drop_first() == b.drop_first() {
            assert forall|i: int| 0 <= i < a.len() implies a[i] == b[i] by {
                if i > 0 {
                    assert(a[i] == a.drop_first()[i - 1]);
                    assert(b[i] == b.drop_first()[i - 1]);
                }
            }
            assert(a =~= b);
        }
    } else if a.len() == 0 && b.len() == 0 {
        assert(a =~= b);
    } else if a.len() > 0 && b.len() > 0 {
        assert(a[0] as int != b[0] as int);
    }
}

/// The order of strings is transitive.
pub proof fn lemma_str_lt_transitive(a: Seq<char>, b: Seq<char>, c: Seq<char>)
    requires
        str_lt(a, b),
        str_lt(b, c),
    ensures
        str_lt(a, c),
    decreases a.len(),
{
    if a.len() > 0 && b.len() > 0 && c.len() > 0 && a[0] == b[0] && b[0] == c[0] {
        lemma_str_lt_transitive(a.drop_first(), b.drop_first(), c.drop_first());
    }
}

/// Where each entry's name comes before the next one's, each entry's name comes before those
/// of all later entries.
proof fn lemma_sorted_all_pairs(t: Seq<(Seq<char>, Seq<char>)>)
    requires
        forall|i: int| 0 <= i < t.len() - 1 ==> str_lt(#[trigger] t[i].0, t[i + 1].0),
    ensures
        forall|i: int, j: int| 0 <= i < j < t.len() ==> str_lt(#[trigger] t[i].0, #[trigger] t[j].0),
    decreases t.len(),
{
    if t.len() > 1 {
        let init = t.drop_last();
        assert forall|i: int| 0 <= i < init.len() - 1 implies str_lt(#[trigger] init[i].0, init[i + 1].0) by {
            assert(init[i] == t[i]);
            assert(init[i + 1] == t[i + 1]);
        }
        lemma_sorted_all_pairs(init);
        assert forall|i: int, j: int| 0 <= i < j < t.len() implies str_lt(#[trigger] t[i].0, #[trigger] t[j].0) by {
            if j < t.len() - 1 {
                assert(init[i] == t[i]);
                assert(init[j] == t[j]);
            } else if i < j - 1 {
                assert(init[i] == t[i]);
                assert(init[j - 1] == t[j - 1]);
                assert(str_lt(t[j - 1].0, t[j].0));
                lemma_str_lt_transitive(t[i].0, t[j - 1].0, t[j].0);
            }
        }
    }
}

/// Shows the read, write and execute bits of section characteristics.
#[derive(Clone, Copy, PartialEq, Eq, Structural)]
pub struct Rwx(pub SectionCharacteristics);

/// The text that shows the access rights of `c`: `r`, `w` and `x`, each replaced by `-` where
/// the right is missing.
pub open spec fn rwx_text(c: u32) -> Seq<char> {
    seq![
        if c & crate::section::IMAGE_SCN_MEM_READ != 0 { 'r' } else { '-' },
        if c & crate::section::IMAGE_SCN_MEM_WRITE != 0 { 'w' } else { '-' },
        if c & crate::section::IMAGE_SCN_MEM_EXECUTE != 0 { 'x' } else { '-' },
    ]
}

impl Rwx {
    /// The text of these access rights.
    pub fn to_string(&self) -> (r: String)
        ensures
            r@ == rwx_text(self.0.0),
    {
        let mut s = String::new();
        push_char(&mut s, if self.0.is_read() { 'r' } else { '-' });
        push_char(&mut s, if self.0.is_write() { 'w' } else { '-' });
        push_char(&mut s, if self.0.is_exec() { 'x' } else { '-' });
        assert(s@ =~= rwx_text(self.0.0));
        s
    }
}

} // verus!
