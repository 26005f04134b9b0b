//! The server core's decision logic: the single owner of the resource
//! snapshot answers each worker request with messages, a chunk fetch, or a
//! broadcast. The accept loop, the threads, the channels and the world
//! store live at the edge of the system, which performs what these
//! decisions ask.

use vstd::prelude::*;
use crate::resource_manager::ResourceManager;
use crate::server_util::{
    RegistryEntry, RegistryEntryView, ServerConnectionThreadBound,
    ServerConnectionThreadBoundView, ServerInfo, ServerMainThreadBound,
    ServerMainThreadBoundView, ChunkPos, TagEntry, TagEntryData,
};

verus! {

/// What the core asks its surroundings to do with one request: deliver
/// messages to the requesting worker, fetch a chunk from the world store
/// and deliver its data, or deliver one message to every worker.
#[derive(Debug)]
pub enum CoreAction {
    Replies(Vec<ServerConnectionThreadBound>),
    FetchChunk(ChunkPos),
    Broadcast(ServerConnectionThreadBound),
}

/// Spec-level mirror of [`CoreAction`].
#[verifier::ext_equal]
pub enum CoreActionView {
    Replies(Seq<ServerConnectionThreadBoundView>),
    FetchChunk(ChunkPos),
    Broadcast(ServerConnectionThreadBoundView),
}

impl View for CoreAction {
    type V = CoreActionView;

    open spec fn view(&self) -> CoreActionView {
        match self {
            CoreAction::Replies(msgs) => CoreActionView::Replies(
                msgs@.map_values(|m: ServerConnectionThreadBound| m@),
            ),
            CoreAction::FetchChunk(p) => CoreActionView::FetchChunk(*p),
            CoreAction::Broadcast(m) => CoreActionView::Broadcast(m@),
        }
    }
}

/// The registry burst: one message per registry, in snapshot order, closed
/// by the terminator.
pub open spec fn spec_registry_burst(regs: Seq<(Seq<char>, Seq<RegistryEntryView>)>) -> Seq<
    ServerConnectionThreadBoundView,
> {
    regs.map_values(
        |p: (Seq<char>, Seq<RegistryEntryView>)|
            ServerConnectionThreadBoundView::RegistryInfo { registry_id: p.0, entries: p.1 },
    ).push(ServerConnectionThreadBoundView::RegistryInfoFinished)
}

/// Copy a byte vector.
fn clone_bytes(v: &Vec<u8>) -> (r: Vec<u8>)
    ensures
        r@ == v@,
{
    let mut r: Vec<u8> = Vec::new();
    let n = v.len();
    let mut i: usize = 0;
    while i < n
        invariant
            i <= n == v@.len(),
            r@ =~= v@.take(i as int),
        decreases n - i,
    {
        r.push(v[i]);
        i = i + 1;
    }
    proof {
        assert(r@ =~= v@);
    }
    r
}

/// Copy a registry's entry list.
fn clone_entries(entries: &Vec<RegistryEntry>) -> (r: Vec<RegistryEntry>)
    ensures
        r@.map_values(|e: RegistryEntry| e@) == entries@.map_values(|e: RegistryEntry| e@),
{
    let mut r: Vec<RegistryEntry> = Vec::new();
    let n = entries.len();
    let mut i: usize = 0;
    while i < n
        invariant
            i <= n == entries@.len(),
            r@.map_values(|e: RegistryEntry| e@) =~= entries@.map_values(
                |e: RegistryEntry| e@,
            ).take(i as int),
        decreases n - i,
    {
        let data = match &entries[i].data {
            Some(d) => Some(clone_bytes(d)),
            None => None,
        };
        let new_entry = RegistryEntry { id: entries[i].id.clone(), data };
        proof {
            assert(new_entry@.id == entries@[i as int]@.id);
            assert(new_entry@.data == entries@[i as int]@.data);
            assert(new_entry@ == entries@[i as int]@);
        }
        let ghost r_pre = r@;
        proof {
            assert(r_pre.len() == i as int) by {
                assert(r_pre.map_values(|e: RegistryEntry| e@).len() == r_pre.len());
            };
        }
        r.push(new_entry);
        i = i + 1;
        proof {
            assert(r@ == r_pre.push(new_entry));
            assert(r@[i - 1] == new_entry);
            assert forall|k: int| 0 <= k < i implies (#[trigger] r@[k])@ == entries@[k]@ by {
                if k < i - 1 {
                    assert(r@[k] == r_pre[k]);
                    assert(r_pre.map_values(|e: RegistryEntry| e@)[k] == r_pre[k]@);
                    assert(entries@.map_values(|e: RegistryEntry| e@).take((i - 1) as int)[k]
                        == entries@[k]@);
                }
            };
            assert(r@.map_values(|e: RegistryEntry| e@) =~= entries@.map_values(
                |e: RegistryEntry| e@,
            ).take(i as int));
        }
    }
    proof {
        assert(entries@.map_values(|e: RegistryEntry| e@).take(n as int) =~= entries@.map_values(
            |e: RegistryEntry| e@,
        ));
    }
    r
}

/// Copy a list of strings.
fn clone_strings(v: &Vec<String>) -> (r: Vec<String>)
    ensures
        r@.map_values(|s: String| s@) == v@.map_values(|s: String| s@),
{
    let mut r: Vec<String> = Vec::new();
    let n = v.len();
    let mut i: usize = 0;
    while i < n
        invariant
            i <= n == v@.len(),
            r@.map_values(|s: String| s@) =~= v@.map_values(|s: String| s@).take(i as int),
        decreases n - i,
    {
        let ghost r_pre = r@;
        proof {
            assert(r_pre.len() == i as int) by {
                assert(r_pre.map_values(|s: String| s@).len() == r_pre.len());
            };
        }
        let cloned = v[i].clone();
        r.push(cloned);
        i = i + 1;
        proof {
            assert(r@ == r_pre.push(cloned));
            assert(r@[i - 1]@ == v@[i - 1]@);
            assert forall|k: int| 0 <= k < i implies (#[trigger] r@[k])@ == v@[k]@ by {
                if k < i - 1 {
                    assert(r@[k] == r_pre[k]);
                    assert(r_pre.map_values(|s: String| s@)[k] == r_pre[k]@);
                    assert(v@.map_values(|s: String| s@).take((i - 1) as int)[k] == v@[k]@);
                }
            };
            assert(r@.map_values(|s: String| s@) =~= v@.map_values(|s: String| s@).take(i as int));
        }
    }
    proof {
        assert(v@.map_values(|s: String| s@).take(n as int) =~= v@.map_values(|s: String| s@));
    }
    r
}

/// Copy the tag table.
fn clone_tags(tags: &Vec<TagEntry>) -> (r: Vec<TagEntry>)
    ensures
        r@.map_values(|t: TagEntry| t@) == tags@.map_values(|t: TagEntry| t@),
{
    let mut r: Vec<TagEntry> = Vec::new();
    let n = tags.len();
    let mut i: usize = 0;
    while i < n
        invariant
            i <= n == tags@.len(),
            r@.map_values(|t: TagEntry| t@) =~~= tags@.map_values(|t: TagEntry| t@).take(i as int),
        decreases n - i,
    {
        let mut data: Vec<TagEntryData> = Vec::new();
        let m = tags[i].data.len();
        let mut j: usize = 0;
        while j < m
            invariant
                j <= m == tags@[i as int].data@.len(),
                i < tags@.len(),
                data@.map_values(|d: TagEntryData| d@) =~~= tags@[i as int].data@.map_values(
                    |d: TagEntryData| d@,
                ).take(j as int),
            decreases m - j,
        {
            let new_data = TagEntryData {
                entries: clone_strings(&tags[i].data[j].entries),
                tag_name: tags[i].data[j].tag_name.clone(),
            };
            proof {
                assert(new_data@.entries == tags@[i as int].data@[j as int]@.entries);
                assert(new_data@ == tags@[i as int].data@[j as int]@);
            }
            let ghost data_pre = data@;
            proof {
                assert(data_pre.len() == j as int) by {
                    assert(data_pre.map_values(|d: TagEntryData| d@).len() == data_pre.len());
                };
            }
            data.push(new_data);
            j = j + 1;
            proof {
                assert(data@ == data_pre.push(new_data));
                assert(data@[j - 1] == new_data);
                assert forall|k: int|
                    0 <= k < j implies (#[trigger] data@[k])@ == tags@[i as int].data@[k]@ by {
                    if k < j - 1 {
                        assert(data@[k] == data_pre[k]);
                        assert(data_pre.map_values(|d: TagEntryData| d@)[k] == data_pre[k]@);
                        assert(tags@[i as int].data@.map_values(|d: TagEntryData| d@).take(
                            (j - 1) as int,
                        )[k] == tags@[i as int].data@[k]@);
                    }
                };
                assert(data@.map_values(|d: TagEntryData| d@) =~= tags@[i as int].data@.map_values(
                    |d: TagEntryData| d@,
                ).take(j as int));
            }
        }
        proof {
            assert(tags@[i as int].data@.map_values(|d: TagEntryData| d@).take(m as int)
                =~= tags@[i as int].data@.map_values(|d: TagEntryData| d@));
        }
        let new_tag = TagEntry { id: tags[i].id.clone(), data };
        proof {
            assert(new_tag@.data == tags@[i as int]@.data);
            assert(new_tag@ == tags@[i as int]@);
        }
        let ghost r_pre = r@;
        proof {
            assert(r_pre.len() == i as int) by {
                assert(r_pre.map_values(|t: TagEntry| t@).len() == r_pre.len());
            };
        }
        r.push(new_tag);
        i = i + 1;
        proof {
            assert(r@ == r_pre.push(new_tag));
            assert(r@[i - 1] == new_tag);
            assert forall|k: int| 0 <= k < i implies (#[trigger] r@[k])@ == tags@[k]@ by {
                if k < i - 1 {
                    assert(r@[k] == r_pre[k]);
                    assert(r_pre.map_values(|t: TagEntry| t@)[k] == r_pre[k]@);
                    assert(tags@.map_values(|t: TagEntry| t@).take((i - 1) as int)[k]
                        == tags@[k]@);
                }
            };
            assert(r@.map_values(|t: TagEntry| t@) =~= tags@.map_values(|t: TagEntry| t@).take(
                i as int,
            ));
        }
    }
    proof {
        assert(tags@.map_values(|t: TagEntry| t@).take(n as int) =~= tags@.map_values(
            |t: TagEntry| t@,
        ));
    }
    r
}

/// The server core's owned state: the status summary and the resource
/// snapshot. The world store stays at the edge of the system.
pub struct MCServer {
    pub server_info: ServerInfo,
    pub resource_manager: ResourceManager,
}

impl MCServer {
    /// A core around a loaded resource snapshot.
    pub fn new(server_info: ServerInfo, resource_manager: ResourceManager) -> (r: Self)
        ensures
            r.server_info == server_info,
            r.resource_manager == resource_manager,
    {
        MCServer { server_info, resource_manager }
    }

    /// Decide one worker request: the registry burst in snapshot order for
    /// a registry request, the tag table for a tag request, a fetch for a
    /// chunk request, and a broadcast of the same message for chat.
    pub fn handle_request(&self, request: ServerMainThreadBound) -> (r: CoreAction)
        ensures
            match request@ {
                ServerMainThreadBoundView::RequestRegistryInfo => r@ == CoreActionView::Replies(
                    spec_registry_burst(self.resource_manager.registries_view()),
                ),
                ServerMainThreadBoundView::RequestTagInfo => r@ == CoreActionView::Replies(
                    seq![
                        ServerConnectionThreadBoundView::TagInfo(
                            self.resource_manager.tags_view(),
                        ),
                    ],
                ),
                ServerMainThreadBoundView::RequestChunk(p) => r@ == CoreActionView::FetchChunk(p),
                ServerMainThreadBoundView::ChatMessage { player_name, message, timestamp, salt } => {
                    r@ == CoreActionView::Broadcast(
                        ServerConnectionThreadBoundView::ChatMessage {
                            player_name,
                            message,
                            timestamp,
                            salt,
                        },
                    )
                },
            },
    {
        match request {
            ServerMainThreadBound::RequestRegistryInfo => {
                let regs = self.resource_manager.registries_ref();
                let ghost rv = self.resource_manager.registries_view();
                let mut msgs: Vec<ServerConnectionThreadBound> = Vec::new();
                let n = regs.len();
                let mut i: usize = 0;
                proof {
                    assert(rv.len() == regs@.len());
                }
                while i < n
                    invariant
                        i <= n == regs@.len(),
                        rv == regs@.map_values(
                            |p: (String, Vec<RegistryEntry>)|
                                (p.0@, p.1@.map_values(|e: RegistryEntry| e@)),
                        ),
                        rv == self.resource_manager.registries_view(),
                        msgs@.map_values(|m: ServerConnectionThreadBound| m@) =~~= rv.take(
                            i as int,
                        ).map_values(
                            |p: (Seq<char>, Seq<RegistryEntryView>)|
                                ServerConnectionThreadBoundView::RegistryInfo {
                                    registry_id: p.0,
                                    entries: p.1,
                                },
                        ),
                    decreases n - i,
                {
                    let new_msg = ServerConnectionThreadBound::RegistryInfo {
                        registry_id: regs[i].0.clone(),
                        entries: clone_entries(&regs[i].1),
                    };
                    proof {
                        assert(new_msg@ == (ServerConnectionThreadBoundView::RegistryInfo {
                            registry_id: rv[i as int].0,
                            entries: rv[i as int].1,
                        }));
                    }
                    let ghost msgs_pre = msgs@;
                    proof {
                        assert(msgs_pre.len() == i as int) by {
                            assert(msgs_pre.map_values(
                                |m: ServerConnectionThreadBound| m@,
                            ).len() == msgs_pre.len());
                        };
                    }
                    msgs.push(new_msg);
                    i = i + 1;
                    proof {
                        assert(msgs@ == msgs_pre.push(new_msg));
                        let f = |p: (Seq<char>, Seq<RegistryEntryView>)|
                            ServerConnectionThreadBoundView::RegistryInfo {
                                registry_id: p.0,
                                entries: p.1,
                            };
                        assert(msgs@[i - 1] == new_msg);
                        assert forall|k: int| 0 <= k < i implies (#[trigger] msgs@[k])@ == f(
                            rv[k],
                        ) by {
                            if k < i - 1 {
                                assert(msgs@[k] == msgs_pre[k]);
                                assert(msgs_pre.map_values(
                                    |m: ServerConnectionThreadBound| m@,
                                )[k] == msgs_pre[k]@);
                                assert(rv.take((i - 1) as int).map_values(f)[k] == f(rv[k]));
                            }
                        };
                        assert(msgs@.map_values(|m: ServerConnectionThreadBound| m@) =~= rv.take(
                            i as int,
                        ).map_values(f));
                    }
                }
                msgs.push(ServerConnectionThreadBound::RegistryInfoFinished);
                proof {
                    assert(rv.take(n as int) =~= rv);
                    assert(msgs@.map_values(|m: ServerConnectionThreadBound| m@)
                        =~~= spec_registry_burst(rv));
                }
                CoreAction::Replies(msgs)
            },
            ServerMainThreadBound::RequestTagInfo => {
                let tags = clone_tags(self.resource_manager.tags_ref());
                let mut msgs: Vec<ServerConnectionThreadBound> = Vec::new();
                msgs.push(ServerConnectionThreadBound::TagInfo(tags));
                let r = CoreAction::Replies(msgs);
                proof {
                    assert(r@ =~~= CoreActionView::Replies(
                        seq![
                            ServerConnectionThreadBoundView::TagInfo(
                                self.resource_manager.tags_view(),
                            ),
                        ],
                    ));
                }
                r
            },
            ServerMainThreadBound::RequestChunk(pos) => CoreAction::FetchChunk(pos),
            ServerMainThreadBound::ChatMessage { player_name, message, timestamp, salt } => {
                CoreAction::Broadcast(
                    ServerConnectionThreadBound::ChatMessage {
                        player_name,
                        message,
                        timestamp,
                        salt,
                    },
                )
            },
        }
    }
}

} // verus!
