//! The resource snapshot: named registries, tag groups, and the block-state
//! table. The filesystem walk and JSON reads happen at the edge of the
//! system; the classification and grouping rules live here.

use vstd::prelude::*;
use vstd::string::StringExecFns;
use crate::block_registry::{BlockRegistry, BlockStateView};
use crate::server_util::{RegistryEntry, RegistryEntryView, TagEntry, TagEntryData, TagEntryDataView, TagEntryView};

verus! {

/// The view of the registries table: identifier and entry list, in
/// first-encounter order.
pub type RegistriesView = Seq<(Seq<char>, Seq<RegistryEntryView>)>;

/// Index of the first registry named `id`.
pub open spec fn spec_registry_index(regs: RegistriesView, id: Seq<char>) -> Option<int>
    decreases regs.len(),
{
    if regs.len() == 0 {
        None
    } else if regs[0].0 == id {
        Some(0)
    } else {
        match spec_registry_index(regs.drop_first(), id) {
            Some(i) => Some(i + 1),
            None => None,
        }
    }
}

/// The entry list of the first registry named `id`.
pub open spec fn spec_lookup_registry(regs: RegistriesView, id: Seq<char>) -> Option<
    Seq<RegistryEntryView>,
> {
    match spec_registry_index(regs, id) {
        Some(i) => Some(regs[i].1),
        None => None,
    }
}

pub proof fn lemma_registry_index_in_range(regs: RegistriesView, id: Seq<char>)
    ensures
        spec_registry_index(regs, id) matches Some(i) ==> 0 <= i < regs.len() && regs[i].0 == id,
    decreases regs.len(),
{
    if regs.len() > 0 && regs[0].0 != id {
        lemma_registry_index_in_range(regs.drop_first(), id);
    }
}

/// Index of the first entry named `id` in a registry's entry list; the
/// position is the numeric id exposed to clients.
pub open spec fn spec_entry_index(es: Seq<RegistryEntryView>, id: Seq<char>) -> Option<int>
    decreases es.len(),
{
    if es.len() == 0 {
        None
    } else if es[0].id == id {
        Some(0)
    } else {
        match spec_entry_index(es.drop_first(), id) {
            Some(i) => Some(i + 1),
            None => None,
        }
    }
}

pub proof fn lemma_entry_index_in_range(es: Seq<RegistryEntryView>, id: Seq<char>)
    ensures
        spec_entry_index(es, id) matches Some(i) ==> 0 <= i < es.len(),
    decreases es.len(),
{
    if es.len() > 0 && es[0].id != id {
        lemma_entry_index_in_range(es.drop_first(), id);
    }
}

/// Index of the first tag group for registry `id`.
pub open spec fn spec_tag_index(tags: Seq<TagEntryView>, id: Seq<char>) -> Option<int>
    decreases tags.len(),
{
    if tags.len() == 0 {
        None
    } else if tags[0].id == id {
        Some(0)
    } else {
        match spec_tag_index(tags.drop_first(), id) {
            Some(i) => Some(i + 1),
            None => None,
        }
    }
}

pub proof fn lemma_tag_index_in_range(tags: Seq<TagEntryView>, id: Seq<char>)
    ensures
        spec_tag_index(tags, id) matches Some(i) ==> 0 <= i < tags.len() && tags[i].id == id,
    decreases tags.len(),
{
    if tags.len() > 0 && tags[0].id != id {
        lemma_tag_index_in_range(tags.drop_first(), id);
    }
}

/// Path components joined with a slash.
pub open spec fn spec_join_slash(parts: Seq<Seq<char>>) -> Seq<char>
    decreases parts.len(),
{
    if parts.len() == 0 {
        Seq::empty()
    } else if parts.len() == 1 {
        parts[0]
    } else {
        spec_join_slash(parts.drop_last()) + "/"@ + parts.last()
    }
}

/// Classify one resource file under the generated data root, given as path
/// components with the file's stem last. A file under the tag, datapack,
/// loot-table, recipe or advancement trees names no registry entry; any
/// other file of at least a namespace and a stem adds the entry
/// `<namespace>:<stem>` to the registry `minecraft:<middle components>`.
pub open spec fn spec_classify_registry_path(parts: Seq<Seq<char>>) -> Option<
    (Seq<char>, Seq<char>),
> {
    if parts.len() < 2 {
        None
    } else if parts[0] == "minecraft"@ && (parts[1] == "tags"@ || parts[1] == "datapacks"@
        || parts[1] == "loot_table"@ || parts[1] == "recipe"@ || parts[1] == "advancement"@) {
        None
    } else {
        Some(
            (
                "minecraft:"@ + spec_join_slash(parts.subrange(1, parts.len() - 1)),
                parts[0] + ":"@ + parts.last(),
            ),
        )
    }
}

/// Classify one tag file under the tags root: the first component names the
/// registry the tags belong to, the rest is the tag's own name.
pub open spec fn spec_classify_tag_path(parts: Seq<Seq<char>>) -> Option<(Seq<char>, Seq<char>)> {
    if parts.len() < 1 {
        None
    } else {
        Some(("minecraft:"@ + parts[0], spec_join_slash(parts.drop_first())))
    }
}

/// The process-wide resource snapshot: built once at startup, read-only
/// afterwards.
#[derive(Debug, Clone)]
pub struct ResourceManager {
    registries: Vec<(String, Vec<RegistryEntry>)>,
    block_registry: BlockRegistry,
    tags: Vec<TagEntry>,
}

impl ResourceManager {
    /// The registries, as identifier/entry-list pairs in first-encounter order.
    pub closed spec fn registries_view(&self) -> RegistriesView {
        self.registries@.map_values(
            |p: (String, Vec<RegistryEntry>)|
                (p.0@, p.1@.map_values(|e: RegistryEntry| e@)),
        )
    }

    /// The block-state table.
    pub closed spec fn blocks_view(&self) -> Seq<(Seq<char>, Seq<BlockStateView>)> {
        self.block_registry@
    }

    /// The tag groups, in first-encounter order.
    pub closed spec fn tags_view(&self) -> Seq<TagEntryView> {
        self.tags@.map_values(|t: TagEntry| t@)
    }

    /// An empty snapshot around a block-state table; the loader fills it.
    pub fn new(block_registry: BlockRegistry) -> (r: Self)
        ensures
            r.registries_view() == Seq::<(Seq<char>, Seq<RegistryEntryView>)>::empty(),
            r.tags_view() == Seq::<TagEntryView>::empty(),
            r.blocks_view() == block_registry@,
    {
        let r = ResourceManager { registries: Vec::new(), block_registry, tags: Vec::new() };
        proof {
            assert(r.registries_view() =~= Seq::<(Seq<char>, Seq<RegistryEntryView>)>::empty());
            assert(r.tags_view() =~= Seq::<TagEntryView>::empty());
        }
        r
    }

    pub fn registries_ref(&self) -> (r: &Vec<(String, Vec<RegistryEntry>)>)
        ensures
            r@.map_values(
                |p: (String, Vec<RegistryEntry>)|
                    (p.0@, p.1@.map_values(|e: RegistryEntry| e@)),
            ) == self.registries_view(),
    {
        &self.registries
    }

    pub fn block_registry_ref(&self) -> (r: &BlockRegistry)
        ensures
            r@ == self.blocks_view(),
    {
        &self.block_registry
    }

    pub fn tags_ref(&self) -> (r: &Vec<TagEntry>)
        ensures
            r@.map_values(|t: TagEntry| t@) == self.tags_view(),
    {
        &self.tags
    }

    /// Append one entry (with no payload) to the named registry, creating
    /// the registry at the back on first encounter. The entry's numeric id
    /// is its position in the entry list.
    pub fn add_registry_entry(&mut self, registry_name: String, entry_id: String)
        ensures
            final(self).blocks_view() == old(self).blocks_view(),
            final(self).tags_view() == old(self).tags_view(),
            match spec_registry_index(old(self).registries_view(), registry_name@) {
                Some(i) => final(self).registries_view() == old(self).registries_view().update(
                    i,
                    (
                        old(self).registries_view()[i].0,
                        old(self).registries_view()[i].1.push(
                            RegistryEntryView { id: entry_id@, data: None },
                        ),
                    ),
                ),
                None => final(self).registries_view() == old(self).registries_view().push(
                    (registry_name@, seq![RegistryEntryView { id: entry_id@, data: None }]),
                ),
            },
    {
        let ghost regs0 = old(self).registries_view();
        let n = self.registries.len();
        let mut i: usize = 0;
        proof {
            assert(regs0.skip(0) =~= regs0);
        }
        while i < n
            invariant
                self == old(self),
                i <= n == self.registries@.len(),
                regs0 == self.registries_view(),
                spec_registry_index(regs0, registry_name@) == match spec_registry_index(
                    regs0.skip(i as int),
                    registry_name@,
                ) {
                    Some(k) => Some(k + i),
                    None => None::<int>,
                },
            decreases n - i,
        {
            proof {
                assert(regs0.skip(i as int)[0] == regs0[i as int]);
                assert(regs0.skip(i as int).drop_first() =~= regs0.skip(i + 1));
            }
            if self.registries[i].0.eq(&registry_name) {
                let mut pair = self.registries.remove(i);
                pair.1.push(RegistryEntry { id: entry_id, data: None });
                self.registries.insert(i, pair);
                proof {
                    assert(self.registries_view() =~~= regs0.update(
                        i as int,
                        (
                            regs0[i as int].0,
                            regs0[i as int].1.push(RegistryEntryView { id: entry_id@, data: None }),
                        ),
                    ));
                }
                return ;
            }
            i = i + 1;
        }
        let mut entries: Vec<RegistryEntry> = Vec::new();
        entries.push(RegistryEntry { id: entry_id, data: None });
        self.registries.push((registry_name, entries));
        proof {
            assert(entries@.map_values(|e: RegistryEntry| e@) =~= seq![
                RegistryEntryView { id: entry_id@, data: None },
            ]);
            assert(self.registries_view() =~~= regs0.push(
                (registry_name@, seq![RegistryEntryView { id: entry_id@, data: None }]),
            ));
        }
    }

    /// Append one tag (name and member identifiers) to the group of the
    /// named registry, creating the group at the back on first encounter.
    pub fn add_tag_entry(&mut self, tag_registry_name: String, tag_name: String, values: Vec<String>)
        ensures
            final(self).blocks_view() == old(self).blocks_view(),
            final(self).registries_view() == old(self).registries_view(),
            match spec_tag_index(old(self).tags_view(), tag_registry_name@) {
                Some(i) => final(self).tags_view() == old(self).tags_view().update(
                    i,
                    TagEntryView {
                        id: old(self).tags_view()[i].id,
                        data: old(self).tags_view()[i].data.push(
                            TagEntryDataView {
                                entries: values@.map_values(|s: String| s@),
                                tag_name: tag_name@,
                            },
                        ),
                    },
                ),
                None => final(self).tags_view() == old(self).tags_view().push(
                    TagEntryView {
                        id: tag_registry_name@,
                        data: seq![
                            TagEntryDataView {
                                entries: values@.map_values(|s: String| s@),
                                tag_name: tag_name@,
                            },
                        ],
                    },
                ),
            },
    {
        let ghost tags0 = old(self).tags_view();
        let n = self.tags.len();
        let mut i: usize = 0;
        proof {
            assert(tags0.skip(0) =~= tags0);
        }
        while i < n
            invariant
                self == old(self),
                i <= n == self.tags@.len(),
                tags0 == self.tags_view(),
                spec_tag_index(tags0, tag_registry_name@) == match spec_tag_index(
                    tags0.skip(i as int),
                    tag_registry_name@,
                ) {
                    Some(k) => Some(k + i),
                    None => None::<int>,
                },
            decreases n - i,
        {
            proof {
                assert(tags0.skip(i as int)[0] == tags0[i as int]);
                assert(tags0.skip(i as int).drop_first() =~= tags0.skip(i + 1));
            }
            if self.tags[i].id.eq(&tag_registry_name) {
                let mut group = self.tags.remove(i);
                group.data.push(TagEntryData { entries: values, tag_name });
                self.tags.insert(i, group);
                proof {
                    assert(self.tags_view() =~~= tags0.update(
                        i as int,
                        TagEntryView {
                            id: tags0[i as int].id,
                            data: tags0[i as int].data.push(
                                TagEntryDataView {
                                    entries: values@.map_values(|s: String| s@),
                                    tag_name: tag_name@,
                                },
                            ),
                        },
                    ));
                }
                return ;
            }
            i = i + 1;
        }
        let mut data: Vec<TagEntryData> = Vec::new();
        data.push(TagEntryData { entries: values, tag_name });
        self.tags.push(TagEntry { id: tag_registry_name, data });
        proof {
            assert(self.tags_view() =~~= tags0.push(
                TagEntryView {
                    id: tag_registry_name@,
                    data: seq![
                        TagEntryDataView {
                            entries: values@.map_values(|s: String| s@),
                            tag_name: tag_name@,
                        },
                    ],
                },
            ));
        }
    }

    /// The entry list of the named registry, if the snapshot holds it.
    pub fn get_registry(&self, id: &String) -> (r: Option<&Vec<RegistryEntry>>)
        ensures
            match spec_lookup_registry(self.registries_view(), id@) {
                Some(es) => r matches Some(v) && v@.map_values(|e: RegistryEntry| e@) == es,
                None => r is None,
            },
    {
        let ghost regs0 = self.registries_view();
        let n = self.registries.len();
        let mut i: usize = 0;
        proof {
            assert(regs0.skip(0) =~= regs0);
            lemma_registry_index_in_range(regs0, id@);
        }
        while i < n
            invariant
                i <= n == self.registries@.len(),
                regs0 == self.registries_view(),
                spec_registry_index(regs0, id@) == match spec_registry_index(
                    regs0.skip(i as int),
                    id@,
                ) {
                    Some(k) => Some(k + i),
                    None => None::<int>,
                },
            decreases n - i,
        {
            proof {
                assert(regs0.skip(i as int)[0] == regs0[i as int]);
                assert(regs0.skip(i as int).drop_first() =~= regs0.skip(i + 1));
            }
            if self.registries[i].0.eq(id) {
                return Some(&self.registries[i].1);
            }
            i = i + 1;
        }
        None
    }
}

/// Build the registry key and entry id for one resource file, exactly as
/// [`spec_classify_registry_path`] says.
pub fn classify_registry_path(parts: &Vec<String>) -> (r: Option<(String, String)>)
    ensures
        match spec_classify_registry_path(parts@.map_values(|s: String| s@)) {
            Some(p) => r matches Some(v) && v.0@ == p.0 && v.1@ == p.1,
            None => r is None,
        },
{
    let ghost pv = parts@.map_values(|s: String| s@);
    if parts.len() < 2 {
        return None;
    }
    let minecraft = String::from_str("minecraft");
    if parts[0].eq(&minecraft) {
        let tags = String::from_str("tags");
        let datapacks = String::from_str("datapacks");
        let loot_table = String::from_str("loot_table");
        let recipe = String::from_str("recipe");
        let advancement = String::from_str("advancement");
        if parts[1].eq(&tags) || parts[1].eq(&datapacks) || parts[1].eq(&loot_table) || parts[1].eq(
            &recipe,
        ) || parts[1].eq(&advancement) {
            return None;
        }
    }
    let mut registry_name = String::from_str("minecraft:");
    let mut j: usize = 1;
    proof {
        assert(pv.subrange(1, 1) =~= Seq::<Seq<char>>::empty());
    }
    while j < parts.len() - 1
        invariant
            1 <= j <= parts@.len() - 1,
            pv == parts@.map_values(|s: String| s@),
            parts@.len() >= 2,
            registry_name@ == "minecraft:"@ + spec_join_slash(pv.subrange(1, j as int)),
        decreases parts@.len() - j,
    {
        if j > 1 {
            registry_name.append("/");
        }
        registry_name.append(parts[j].as_str());
        proof {
            assert(pv.subrange(1, j + 1).drop_last() =~= pv.subrange(1, j as int));
            assert(pv.subrange(1, j + 1).last() == pv[j as int]);
            if j > 1 {
                assert(registry_name@ == "minecraft:"@ + spec_join_slash(pv.subrange(1, j + 1)));
            } else {
                assert(pv.subrange(1, 2) =~= seq![pv[1]]);
            }
        }
        j = j + 1;
    }
    let mut entry_id = String::new();
    entry_id.append(parts[0].as_str());
    entry_id.append(":");
    entry_id.append(parts[parts.len() - 1].as_str());
    proof {
        assert(entry_id@ == pv[0] + ":"@ + pv.last());
        assert(pv.last() == pv[pv.len() - 1]);
    }
    Some((registry_name, entry_id))
}

/// Build the tag-registry key and tag name for one tag file, exactly as
/// [`spec_classify_tag_path`] says.
pub fn classify_tag_path(parts: &Vec<String>) -> (r: Option<(String, String)>)
    ensures
        match spec_classify_tag_path(parts@.map_values(|s: String| s@)) {
            Some(p) => r matches Some(v) && v.0@ == p.0 && v.1@ == p.1,
            None => r is None,
        },
{
    let ghost pv = parts@.map_values(|s: String| s@);
    if parts.len() == 0 {
        return None;
    }
    let mut tag_registry = String::from_str("minecraft:");
    tag_registry.append(parts[0].as_str());
    let mut tag_name = String::new();
    let mut j: usize = 1;
    proof {
        assert(pv.drop_first().subrange(0, 0) =~= Seq::<Seq<char>>::empty());
        assert(tag_name@ =~= spec_join_slash(pv.drop_first().subrange(0, 0)));
    }
    while j < parts.len()
        invariant
            1 <= j <= parts@.len(),
            pv == parts@.map_values(|s: String| s@),
            parts@.len() >= 1,
            tag_name@ == spec_join_slash(pv.drop_first().subrange(0, j - 1)),
        decreases parts@.len() - j,
    {
        if j > 1 {
            tag_name.append("/");
        }
        tag_name.append(parts[j].as_str());
        proof {
            let sub = pv.drop_first().subrange(0, j as int);
            assert(sub.drop_last() =~= pv.drop_first().subrange(0, j - 1));
            assert(sub.last() == pv[j as int]);
            if j == 1 {
                assert(sub =~= seq![pv[1]]);
            }
        }
        j = j + 1;
    }
    proof {
        assert(pv.drop_first().subrange(0, pv.len() - 1) =~= pv.drop_first());
    }
    Some((tag_registry, tag_name))
}

} // verus!
