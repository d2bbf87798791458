//! The address-to-name table for known sensors, loaded once at startup
//! from lines of the form `ADDRESS=NAME`. A malformed line is a fatal
//! configuration error; a missing file is treated as an empty table by
//! the caller handing in no lines.

use vstd::prelude::*;
use vstd::string::*;

use crate::address::{
    parse_address, spec_address_of_chars, spec_valid_address_chars, SensorAddress,
};

verus! {

/// A fatal configuration error: the zero-based index of the first line
/// that could not be parsed.
#[derive(Clone, Copy, PartialEq, Eq, Structural, Debug)]
pub enum ConfigError {
    /// The line holds no `=` separator.
    MissingSeparator { line_index: usize },
    /// The part before the first `=` is not a well-formed address.
    InvalidAddress { line_index: usize },
}

/// An immutable mapping from sensor address to human-readable name,
/// constructed once at startup. Absence of an address is valid: such a
/// sensor is simply not a known sensor.
pub struct SensorNames {
    entries: Vec<(SensorAddress, String)>,
}

/// The map denoted by an association list, later entries overriding
/// earlier ones.
pub open spec fn spec_entries_map(s: Seq<(SensorAddress, String)>) -> Map<
    SensorAddress,
    Seq<char>,
>
    decreases s.len(),
{
    if s.len() == 0 {
        Map::empty()
    } else {
        spec_entries_map(s.drop_last()).insert(s.last().0, s.last().1@)
    }
}

/// Membership in the association-list map is membership of the key in
/// some entry.
proof fn lemma_entries_map_domain(s: Seq<(SensorAddress, String)>, a: SensorAddress)
    ensures
        spec_entries_map(s).contains_key(a) <==> exists|i: int| 0 <= i < s.len() && s[i].0 == a,
    decreases s.len(),
{
    if s.len() > 0 {
        lemma_entries_map_domain(s.drop_last(), a);
        if spec_entries_map(s).contains_key(a) {
            if s.last().0 == a {
                assert(s[s.len() - 1].0 == a);
            } else {
                let i = choose|i: int| 0 <= i < s.drop_last().len() && s.drop_last()[i].0 == a;
                assert(s[i].0 == a);
            }
        }
        if exists|i: int| 0 <= i < s.len() && s[i].0 == a {
            let i = choose|i: int| 0 <= i < s.len() && s[i].0 == a;
            if i < s.len() - 1 {
                assert(s.drop_last()[i].0 == a);
            }
        }
    }
}

/// Whether the keys of an association list are pairwise distinct.
pub open spec fn spec_entries_unique(s: Seq<(SensorAddress, String)>) -> bool {
    forall|i: int, j: int| 0 <= i < j < s.len() ==> s[i].0 != s[j].0
}

/// With pairwise distinct keys, each entry gives the map's value at its
/// key.
proof fn lemma_entries_map_value(s: Seq<(SensorAddress, String)>, i: int)
    requires
        spec_entries_unique(s),
        0 <= i < s.len(),
    ensures
        spec_entries_map(s).contains_key(s[i].0),
        spec_entries_map(s)[s[i].0] == s[i].1@,
    decreases s.len(),
{
    if i == s.len() - 1 {
    } else {
        assert(spec_entries_unique(s.drop_last())) by {
            assert(forall|p: int, q: int|
                0 <= p < q < s.drop_last().len() ==> s.drop_last()[p].0 == s[p].0
                    && s.drop_last()[q].0 == s[q].0);
        }
        lemma_entries_map_value(s.drop_last(), i);
        assert(s.drop_last()[i] == s[i]);
        assert(s.last().0 != s[i].0);
    }
}

impl SensorNames {
    /// The mapping from address to name.
    pub closed spec fn view(&self) -> Map<SensorAddress, Seq<char>> {
        spec_entries_map(self.entries@)
    }

    /// Internal well-formedness: no address occurs twice.
    pub closed spec fn wf(&self) -> bool {
        spec_entries_unique(self.entries@)
    }

    /// An empty table: no sensor is known.
    pub fn new() -> (r: SensorNames)
        ensures
            r.wf(),
            r@ == Map::<SensorAddress, Seq<char>>::empty(),
    {
        SensorNames { entries: Vec::new() }
    }

    /// Inserts a name for an address, replacing any earlier name.
    #[verifier::loop_isolation(false)]
    pub fn insert(&mut self, addr: SensorAddress, name: String)
        requires
            old(self).wf(),
        ensures
            final(self).wf(),
            final(self)@ == old(self)@.insert(addr, name@),
    {
        let ghost old_entries = self.entries@;
        let mut i: usize = 0;
        while i < self.entries.len()
            invariant
                self.entries@ == old_entries,
                spec_entries_unique(old_entries),
                i <= old_entries.len(),
                forall|j: int| 0 <= j < i ==> old_entries[j].0 != addr,
            decreases old_entries.len() - i,
        {
            if self.entries[i].0 == addr {
                self.entries.set(i, (addr, name));
                proof {
                    lemma_entries_unique_update(old_entries, i as int, addr, self.entries@[i as int].1);
                    lemma_entries_map_update(old_entries, i as int, self.entries@[i as int]);
                    assert(self.entries@ =~= old_entries.update(i as int, self.entries@[i as int]));
                }
                return ;
            }
            i += 1;
        }
        self.entries.push((addr, name));
        proof {
            let s = self.entries@;
            assert(s.drop_last() =~= old_entries);
            assert(forall|p: int, q: int| 0 <= p < q < s.len() ==> s[p].0 != s[q].0) by {
                assert(forall|p: int| 0 <= p < s.len() - 1 ==> s[p] == old_entries[p]);
            }
        }
    }

    /// Looks up the name for an address.
    #[verifier::loop_isolation(false)]
    pub fn get(&self, addr: &SensorAddress) -> (r: Option<&String>)
        requires
            self.wf(),
        ensures
            r is Some <==> self@.contains_key(*addr),
            r matches Some(name) ==> name@ == self@[*addr],
    {
        let mut i: usize = 0;
        while i < self.entries.len()
            invariant
                self.wf(),
                i <= self.entries@.len(),
                forall|j: int| 0 <= j < i ==> self.entries@[j].0 != *addr,
            decreases self.entries@.len() - i,
        {
            if self.entries[i].0 == *addr {
                proof {
                    lemma_entries_map_value(self.entries@, i as int);
                }
                return Some(&self.entries[i].1);
            }
            i += 1;
        }
        proof {
            lemma_entries_map_domain(self.entries@, *addr);
        }
        None
    }

    /// Whether an address is a known (named) sensor.
    pub fn contains(&self, addr: &SensorAddress) -> (r: bool)
        requires
            self.wf(),
        ensures
            r == self@.contains_key(*addr),
    {
        self.get(addr).is_some()
    }
}

/// Updating an entry in place keeps the keys pairwise distinct when the
/// key is unchanged.
proof fn lemma_entries_unique_update(
    s: Seq<(SensorAddress, String)>,
    i: int,
    addr: SensorAddress,
    name: String,
)
    requires
        spec_entries_unique(s),
        0 <= i < s.len(),
        s[i].0 == addr,
    ensures
        spec_entries_unique(s.update(i, (addr, name))),
{
    let t = s.update(i, (addr, name));
    assert(forall|p: int, q: int| 0 <= p < q < t.len() ==> t[p].0 == s[p].0 && t[q].0 == s[q].0);
}

/// Replacing the entry at an existing key is the same map operation as
/// inserting that key.
proof fn lemma_entries_map_update(
    s: Seq<(SensorAddress, String)>,
    i: int,
    entry: (SensorAddress, String),
)
    requires
        spec_entries_unique(s),
        0 <= i < s.len(),
        s[i].0 == entry.0,
    ensures
        spec_entries_map(s.update(i, entry)) == spec_entries_map(s).insert(entry.0, entry.1@),
    decreases s.len(),
{
    let t = s.update(i, entry);
    if i == s.len() - 1 {
        assert(t.drop_last() =~= s.drop_last());
        assert(t.last() == entry);
        assert(spec_entries_map(s).insert(entry.0, entry.1@) =~= spec_entries_map(
            s.drop_last(),
        ).insert(entry.0, entry.1@));
    } else {
        assert(spec_entries_unique(s.drop_last())) by {
            assert(forall|p: int, q: int|
                0 <= p < q < s.drop_last().len() ==> s.drop_last()[p].0 == s[p].0
                    && s.drop_last()[q].0 == s[q].0);
        }
        assert(s.drop_last()[i] == s[i]);
        lemma_entries_map_update(s.drop_last(), i, entry);
        assert(t.drop_last() =~= s.drop_last().update(i, entry));
        assert(t.last() == s.last());
        assert(s.last().0 != entry.0);
        assert(spec_entries_map(t) =~= spec_entries_map(s).insert(entry.0, entry.1@)) by {
            assert(spec_entries_map(t) == spec_entries_map(s.drop_last()).insert(
                entry.0,
                entry.1@,
            ).insert(s.last().0, s.last().1@));
            assert(spec_entries_map(s) == spec_entries_map(s.drop_last()).insert(
                s.last().0,
                s.last().1@,
            ));
        }
    }
}

/// A line holds at most one first `=`.
proof fn lemma_first_eq_unique(s: Seq<char>, i: int, j: int)
    requires
        spec_is_first_eq(s, i),
        spec_is_first_eq(s, j),
    ensures
        i == j,
{
    if i < j {
        assert(s[i] != '=');
    } else if j < i {
        assert(s[j] != '=');
    }
}

/// What one `ADDRESS=NAME` line denotes: the address before the first
/// `=` and the (possibly empty) name after it, or nothing when the line
/// is malformed.
pub open spec fn spec_line_parse(s: Seq<char>) -> Option<(SensorAddress, Seq<char>)> {
    if exists|i: int| spec_is_first_eq(s, i) {
        let i = choose|i: int| spec_is_first_eq(s, i);
        if spec_valid_address_chars(s.subrange(0, i)) {
            Some((spec_address_of_chars(s.subrange(0, i)), s.subrange(i + 1, s.len() as int)))
        } else {
            None
        }
    } else {
        None
    }
}

/// The views of a sequence of lines.
pub open spec fn spec_lines_view(s: Seq<String>) -> Seq<Seq<char>> {
    s.map_values(|x: String| x@)
}

/// The name table denoted by a sequence of well-formed lines, later
/// lines overriding earlier ones.
pub open spec fn spec_names_map(lines: Seq<Seq<char>>) -> Map<SensorAddress, Seq<char>>
    decreases lines.len(),
{
    if lines.len() == 0 {
        Map::empty()
    } else {
        match spec_line_parse(lines.last()) {
            Some(p) => spec_names_map(lines.drop_last()).insert(p.0, p.1),
            None => spec_names_map(lines.drop_last()),
        }
    }
}

/// Builds the name table from the lines of the mapping file. A
/// malformed line is a fatal configuration error naming the first
/// offending line; a missing file is represented by an empty line list
/// and yields an empty table.
#[verifier::loop_isolation(false)]
pub fn parse_sensor_names(lines: &Vec<String>) -> (r: Result<SensorNames, ConfigError>)
    ensures
        (r is Ok <==> (forall|k: int|
            0 <= k < lines@.len() ==> (#[trigger] spec_line_parse(spec_lines_view(lines@)[k]))
                is Some)),
        r matches Ok(names) ==> names.wf() && names@ == spec_names_map(spec_lines_view(lines@)),
        r matches Err(e) ==> (match e {
            ConfigError::MissingSeparator { line_index } => {
                &&& line_index < lines@.len()
                &&& (forall|c: int|
                    0 <= c < lines@[line_index as int]@.len() ==> lines@[line_index as int]@[c]
                        != '=')
                &&& (forall|j: int|
                    0 <= j < line_index ==> (#[trigger] spec_line_parse(
                        spec_lines_view(lines@)[j],
                    )) is Some)
            },
            ConfigError::InvalidAddress { line_index } => {
                &&& line_index < lines@.len()
                &&& (exists|i: int|
                    #[trigger] spec_is_first_eq(lines@[line_index as int]@, i)
                        && !spec_valid_address_chars(
                        lines@[line_index as int]@.subrange(0, i),
                    ))
                &&& (forall|j: int|
                    0 <= j < line_index ==> (#[trigger] spec_line_parse(
                        spec_lines_view(lines@)[j],
                    )) is Some)
            },
        }),
{
    let mut names = SensorNames::new();
    let mut k: usize = 0;
    while k < lines.len()
        invariant
            k <= lines@.len(),
            names.wf(),
            names@ == spec_names_map(spec_lines_view(lines@).take(k as int)),
            forall|j: int|
                0 <= j < k ==> (#[trigger] spec_line_parse(spec_lines_view(lines@)[j])) is Some,
        decreases lines@.len() - k,
    {
        let ghost line = lines@[k as int]@;
        match parse_name_line(lines[k].as_str()) {
            Ok(pair) => {
                let (addr, name) = pair;
                proof {
                    let i = choose|i: int|
                        {
                            &&& #[trigger] spec_is_first_eq(line, i)
                            &&& spec_valid_address_chars(line.subrange(0, i))
                            &&& addr == spec_address_of_chars(line.subrange(0, i))
                            &&& name@ == line.subrange(i + 1, line.len() as int)
                        };
                    assert(spec_is_first_eq(line, i));
                    let j = choose|j: int| spec_is_first_eq(line, j);
                    lemma_first_eq_unique(line, i, j);
                    assert(spec_line_parse(line) == Some((addr, name@)));
                    assert(spec_lines_view(lines@).take(k + 1).drop_last() =~= spec_lines_view(
                        lines@,
                    ).take(k as int));
                    assert(spec_lines_view(lines@).take(k + 1).last() == line);
                }
                names.insert(addr, name);
                proof {
                    assert(names@ =~= spec_names_map(spec_lines_view(lines@).take(k + 1)));
                }
            },
            Err(e) => {
                match e {
                    ConfigError::MissingSeparator { line_index: _ } => {
                        proof {
                            if exists|i: int| spec_is_first_eq(line, i) {
                                let i = choose|i: int| spec_is_first_eq(line, i);
                                assert(line[i] != '=');
                            }
                        }
                        return Err(ConfigError::MissingSeparator { line_index: k });
                    },
                    ConfigError::InvalidAddress { line_index: _ } => {
                        proof {
                            let i = choose|i: int|
                                #[trigger] spec_is_first_eq(line, i)
                                    && !spec_valid_address_chars(line.subrange(0, i));
                            assert(spec_is_first_eq(line, i));
                            let j = choose|j: int| spec_is_first_eq(line, j);
                            lemma_first_eq_unique(line, i, j);
                            assert(spec_line_parse(line) is None);
                        }
                        return Err(ConfigError::InvalidAddress { line_index: k });
                    },
                }
            },
        }
        k += 1;
    }
    proof {
        assert(spec_lines_view(lines@).take(lines@.len() as int) =~= spec_lines_view(lines@));
    }
    Ok(names)
}

/// The position of the first `=` in a line, if any.
pub open spec fn spec_is_first_eq(s: Seq<char>, i: int) -> bool {
    &&& 0 <= i < s.len()
    &&& s[i] == '='
    &&& forall|j: int| 0 <= j < i ==> s[j] != '='
}

/// Parses one `ADDRESS=NAME` line: the part before the first `=` must be
/// a well-formed address; everything after it (possibly empty) is the
/// name. Returns an error exactly when the line is malformed.
#[verifier::loop_isolation(false)]
pub fn parse_name_line(line: &str) -> (r: Result<(SensorAddress, String), ConfigError>)
    ensures
        (r matches Err(ConfigError::MissingSeparator { line_index: 0 })) <==> (forall|j: int|
            0 <= j < line@.len() ==> line@[j] != '='),
        r matches Ok(pair) ==> exists|i: int|
            {
                &&& #[trigger] spec_is_first_eq(line@, i)
                &&& spec_valid_address_chars(line@.subrange(0, i))
                &&& pair.0 == spec_address_of_chars(line@.subrange(0, i))
                &&& pair.1@ == line@.subrange(i + 1, line@.len() as int)
            },
        r matches Err(ConfigError::InvalidAddress { line_index: 0 }) ==> exists|i: int|
            #[trigger] spec_is_first_eq(line@, i) && !spec_valid_address_chars(
                line@.subrange(0, i),
            ),
        r matches Err(e) ==> (e matches ConfigError::MissingSeparator { line_index: 0 } || e
            matches ConfigError::InvalidAddress { line_index: 0 }),
{
    let len = line.unicode_len();
    let eq: char = '=';
    let mut i: usize = 0;
    while i < len
        invariant
            len == line@.len(),
            i <= len,
            forall|j: int| 0 <= j < i ==> line@[j] != '=',
        decreases len - i,
        {
        if line.get_char(i) == eq {
            let address_part = line.substring_char(0, i);
            let name_part = line.substring_char(i + 1, len);
            proof {
                assert(spec_is_first_eq(line@, i as int));
            }
            match parse_address(address_part) {
                Some(addr) => {
                    return Ok((addr, String::from_str(name_part)));
                },
                None => {
                    return Err(ConfigError::InvalidAddress { line_index: 0 });
                },
            }
        }
        i += 1;
    }
    Err(ConfigError::MissingSeparator { line_index: 0 })
}

} // verus!
