//! The bibliography collaborator, supplied already parsed: records
//! identified by a citation key, each exposing an ordered list of
//! (tag name, value) pairs.

use vstd::prelude::*;

use crate::text::bytes_eq;

verus! {

/// One named attribute of a bibliography record.
#[derive(Debug, PartialEq, Eq)]
pub struct BibTag {
    pub name: Vec<u8>,
    pub value: Vec<u8>,
}

/// The mathematical value of a [`BibTag`].
pub struct TagV {
    pub name: Seq<u8>,
    pub value: Seq<u8>,
}

impl View for BibTag {
    type V = TagV;

    open spec fn view(&self) -> TagV {
        TagV { name: self.name@, value: self.value@ }
    }
}

/// The views of a vector of tags.
pub open spec fn tag_views(s: Seq<BibTag>) -> Seq<TagV> {
    s.map_values(|t: BibTag| t@)
}

/// One bibliography record: a citation key and its ordered tags.
#[derive(Debug, PartialEq, Eq)]
pub struct BibEntry {
    pub key: Vec<u8>,
    pub tags: Vec<BibTag>,
}

/// The mathematical value of a [`BibEntry`].
pub struct BibEntryV {
    pub key: Seq<u8>,
    pub tags: Seq<TagV>,
}

impl View for BibEntry {
    type V = BibEntryV;

    open spec fn view(&self) -> BibEntryV {
        BibEntryV { key: self.key@, tags: tag_views(self.tags@) }
    }
}

/// The views of a vector of records.
pub open spec fn entry_views(s: Seq<BibEntry>) -> Seq<BibEntryV> {
    s.map_values(|e: BibEntry| e@)
}

/// The bibliography: an ordered list of records.
#[derive(Debug, PartialEq, Eq)]
pub struct Bibliography {
    pub entries: Vec<BibEntry>,
}

impl View for Bibliography {
    type V = Seq<BibEntryV>;

    open spec fn view(&self) -> Seq<BibEntryV> {
        entry_views(self.entries@)
    }
}

/// Exact-match lookup of a citation key; when two records carry the
/// same key, the later one wins.
pub open spec fn spec_lookup(bib: Seq<BibEntryV>, key: Seq<u8>) -> Option<BibEntryV>
    decreases bib.len(),
{
    if bib.len() == 0 {
        None
    } else if bib.last().key == key {
        Some(bib.last())
    } else {
        spec_lookup(bib.drop_last(), key)
    }
}

/// The value of the first tag with the given name, if any.
pub open spec fn spec_tag(tags: Seq<TagV>, name: Seq<u8>) -> Option<Seq<u8>>
    decreases tags.len(),
{
    if tags.len() == 0 {
        None
    } else if tags.first().name == name {
        Some(tags.first().value)
    } else {
        spec_tag(tags.drop_first(), name)
    }
}

impl Bibliography {
    /// An empty bibliography, in which no key resolves.
    pub fn new() -> (r: Bibliography)
        ensures
            r@ == Seq::<BibEntryV>::empty(),
    {
        let b = Bibliography { entries: Vec::new() };
        proof {
            assert(b@ =~= Seq::<BibEntryV>::empty());
        }
        b
    }

    /// Look up a citation key; `None` when no record carries it.
    pub fn lookup(&self, key: &Vec<u8>) -> (r: Option<&BibEntry>)
        ensures
            match r {
                Some(e) => spec_lookup(self@, key@) == Some(e@),
                None => spec_lookup(self@, key@) is None,
            },
    {
        let n = self.entries.len();
        let mut best: Option<usize> = None;
        let mut j: usize = 0;
        while j < n
            invariant
                j <= n == self.entries@.len(),
                match best {
                    Some(i) => i < j && spec_lookup(self@.subrange(0, j as int), key@) == Some(
                        self.entries@[i as int]@,
                    ),
                    None => spec_lookup(self@.subrange(0, j as int), key@) is None,
                },
            decreases n - j,
        {
            proof {
                assert(self@.subrange(0, j + 1 as int).drop_last() =~= self@.subrange(0, j as int));
                assert(self@.subrange(0, j + 1 as int).last() == self.entries@[j as int]@);
            }
            if bytes_eq(&self.entries[j].key, key) {
                best = Some(j);
            }
            j = j + 1;
        }
        proof {
            assert(self@.subrange(0, n as int) =~= self@);
        }
        match best {
            Some(i) => Some(&self.entries[i]),
            None => None,
        }
    }
}

impl BibEntry {
    /// The value of the first tag with this name, if any.
    pub fn tag_value(&self, name: &Vec<u8>) -> (r: Option<&Vec<u8>>)
        ensures
            match r {
                Some(v) => spec_tag(self@.tags, name@) == Some(v@),
                None => spec_tag(self@.tags, name@) is None,
            },
    {
        let n = self.tags.len();
        proof {
            assert(tag_views(self.tags@).subrange(0, n as int) =~= tag_views(self.tags@));
        }
        let mut j: usize = 0;
        while j < n
            invariant
                j <= n == self.tags@.len(),
                spec_tag(self@.tags, name@) == spec_tag(
                    tag_views(self.tags@).subrange(j as int, n as int),
                    name@,
                ),
            decreases n - j,
        {
            proof {
                let suff = tag_views(self.tags@).subrange(j as int, n as int);
                assert(suff.first() == self.tags@[j as int]@);
                assert(suff.drop_first() =~= tag_views(self.tags@).subrange(j + 1 as int, n as int));
            }
            if bytes_eq(&self.tags[j].name, name) {
                return Some(&self.tags[j].value);
            }
            j = j + 1;
        }
        proof {
            assert(tag_views(self.tags@).subrange(n as int, n as int) =~= Seq::<TagV>::empty());
        }
        None
    }
}

} // verus!
