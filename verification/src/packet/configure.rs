//! The configuration phase: client settings, known-pack negotiation, and
//! the registry and tag payloads the server streams before play begins.

use vstd::prelude::*;
use crate::block_registry::{spec_default_state, BlockStateView};
use crate::codec::{
    next_bool, next_string, next_u8, next_varint, spec_mcstring_bytes, spec_take_bool,
    spec_take_string, spec_take_u8, spec_take_varint, spec_varint_bytes, u8_as_i8, u8_to_i8,
    Reader,
};
use crate::error::ServerError;
use crate::packet::{parse_frame_header, spec_frame_header, MCPacketType};
use crate::packet_builder::{spec_bool_byte, spec_frame, PacketBuilder};
use crate::resource_manager::{
    spec_entry_index, spec_lookup_registry, lemma_entry_index_in_range, RegistriesView,
    ResourceManager,
};
use crate::server_util::{RegistryEntry, RegistryEntryView, TagEntry, TagEntryDataView, TagEntryView};

verus! {

/// One resource pack a side announces: namespace, id, version.
#[derive(Debug)]
pub struct KnownPack {
    pub namespace: String,
    pub id: String,
    pub version: String,
}

/// Spec-level mirror of [`KnownPack`].
#[verifier::ext_equal]
pub struct KnownPackView {
    pub namespace: Seq<char>,
    pub id: Seq<char>,
    pub version: Seq<char>,
}

impl View for KnownPack {
    type V = KnownPackView;

    open spec fn view(&self) -> KnownPackView {
        KnownPackView { namespace: self.namespace@, id: self.id@, version: self.version@ }
    }
}

/// Serverbound configuration packets.
#[derive(Debug)]
pub enum ConfigurationPacketType {
    ClientInformation {
        locale: String,
        view_distance: i8,
        chat_mode: i32,
        chat_has_colors: bool,
        displayed_skin_parts: u8,
        main_hand: i32,
        enable_text_filtering: bool,
        allow_server_listings: bool,
    },
    ServerBoundPluginMessage { channel: String, data: Vec<u8> },
    FinishConfigurationAck,
    ServerBoundKnownPacks { known_packs: Vec<KnownPack> },
}

/// Spec-level mirror of [`ConfigurationPacketType`].
#[verifier::ext_equal]
pub enum ConfigurationPacketView {
    ClientInformation {
        locale: Seq<char>,
        view_distance: i8,
        chat_mode: i32,
        chat_has_colors: bool,
        displayed_skin_parts: u8,
        main_hand: i32,
        enable_text_filtering: bool,
        allow_server_listings: bool,
    },
    ServerBoundPluginMessage { channel: Seq<char>, data: Seq<u8> },
    FinishConfigurationAck,
    ServerBoundKnownPacks { known_packs: Seq<KnownPackView> },
}

impl View for ConfigurationPacketType {
    type V = ConfigurationPacketView;

    open spec fn view(&self) -> ConfigurationPacketView {
        match self {
            ConfigurationPacketType::ClientInformation {
                locale,
                view_distance,
                chat_mode,
                chat_has_colors,
                displayed_skin_parts,
                main_hand,
                enable_text_filtering,
                allow_server_listings,
            } => ConfigurationPacketView::ClientInformation {
                locale: locale@,
                view_distance: *view_distance,
                chat_mode: *chat_mode,
                chat_has_colors: *chat_has_colors,
                displayed_skin_parts: *displayed_skin_parts,
                main_hand: *main_hand,
                enable_text_filtering: *enable_text_filtering,
                allow_server_listings: *allow_server_listings,
            },
            ConfigurationPacketType::ServerBoundPluginMessage { channel, data } => {
                ConfigurationPacketView::ServerBoundPluginMessage {
                    channel: channel@,
                    data: data@,
                }
            },
            ConfigurationPacketType::FinishConfigurationAck => {
                ConfigurationPacketView::FinishConfigurationAck
            },
            ConfigurationPacketType::ServerBoundKnownPacks { known_packs } => {
                ConfigurationPacketView::ServerBoundKnownPacks {
                    known_packs: known_packs@.map_values(|k: KnownPack| k@),
                }
            },
        }
    }
}

/// Read `count` known packs, each three length-prefixed strings.
pub open spec fn spec_take_known_packs(s: Seq<u8>, count: int) -> Result<
    (Seq<KnownPackView>, Seq<u8>),
    ServerError,
>
    decreases count,
{
    if count <= 0 {
        Ok((seq![], s))
    } else {
        match spec_take_string(s) {
            Ok(p1) => match spec_take_string(p1.1) {
                Ok(p2) => match spec_take_string(p2.1) {
                    Ok(p3) => match spec_take_known_packs(p3.1, count - 1) {
                        Ok(rest) => Ok(
                            (
                                seq![
                                    KnownPackView {
                                        namespace: p1.0,
                                        id: p2.0,
                                        version: p3.0,
                                    },
                                ] + rest.0,
                                rest.1,
                            ),
                        ),
                        Err(e) => Err(e),
                    },
                    Err(e) => Err(e),
                },
                Err(e) => Err(e),
            },
            Err(e) => Err(e),
        }
    }
}

/// Parse a configuration frame: 0x00 client information, 0x02 a plugin
/// message whose data is the rest of the frame, 0x03 the configuration
/// acknowledgement, 0x07 the client's known packs.
pub open spec fn spec_parse_configuration(s: Seq<u8>) -> Result<
    ConfigurationPacketView,
    ServerError,
> {
    match spec_frame_header(s) {
        Ok(h) => {
            if h.0 == 0x00 {
                match spec_take_string(h.1) {
                    Ok(p1) => match spec_take_u8(p1.1) {
                        Ok(p2) => match spec_take_varint(p2.1) {
                            Ok(p3) => match spec_take_bool(p3.1) {
                                Ok(p4) => match spec_take_u8(p4.1) {
                                    Ok(p5) => match spec_take_varint(p5.1) {
                                        Ok(p6) => match spec_take_bool(p6.1) {
                                            Ok(p7) => match spec_take_bool(p7.1) {
                                                Ok(p8) => Ok(
                                                    ConfigurationPacketView::ClientInformation {
                                                        locale: p1.0,
                                                        view_distance: u8_to_i8(p2.0),
                                                        chat_mode: p3.0,
                                                        chat_has_colors: p4.0,
                                                        displayed_skin_parts: p5.0,
                                                        main_hand: p6.0,
                                                        enable_text_filtering: p7.0,
                                                        allow_server_listings: p8.0,
                                                    },
                                                ),
                                                Err(e) => Err(e),
                                            },
                                            Err(e) => Err(e),
                                        },
                                        Err(e) => Err(e),
                                    },
                                    Err(e) => Err(e),
                                },
                                Err(e) => Err(e),
                            },
                            Err(e) => Err(e),
                        },
                        Err(e) => Err(e),
                    },
                    Err(e) => Err(e),
                }
            } else if h.0 == 0x02 {
                match spec_take_string(h.1) {
                    Ok(p1) => Ok(
                        ConfigurationPacketView::ServerBoundPluginMessage {
                            channel: p1.0,
                            data: p1.1,
                        },
                    ),
                    Err(e) => Err(e),
                }
            } else if h.0 == 0x03 {
                Ok(ConfigurationPacketView::FinishConfigurationAck)
            } else if h.0 == 0x07 {
                match spec_take_varint(h.1) {
                    Ok(p1) => match spec_take_known_packs(p1.1, p1.0 as int) {
                        Ok(p2) => Ok(
                            ConfigurationPacketView::ServerBoundKnownPacks { known_packs: p2.0 },
                        ),
                        Err(e) => Err(e),
                    },
                    Err(e) => Err(e),
                }
            } else {
                Err(ServerError::UnknownPacketId(h.0))
            }
        },
        Err(e) => Err(e),
    }
}

impl ConfigurationPacketType {
    /// Parse a configuration frame, exactly as [`spec_parse_configuration`]
    /// says.
    #[verifier::rlimit(100)]
    pub fn parse(bytes: Vec<u8>) -> (r: Result<Self, ServerError>)
        ensures
            match spec_parse_configuration(bytes@) {
                Ok(v) => r matches Ok(p) && p@ == v,
                Err(e) => r == Err::<Self, ServerError>(e),
            },
    {
        let mut it = Reader::new(bytes.as_slice());
        let id = match parse_frame_header(&mut it) {
            Ok(v) => v,
            Err(e) => { return Err(e); },
        };
        match id {
            0x00 => {
                let locale = match next_string(&mut it) {
                    Ok(v) => v,
                    Err(e) => { return Err(e); },
                };
                let vd = match next_u8(&mut it) {
                    Ok(v) => v,
                    Err(e) => { return Err(e); },
                };
                let chat_mode = match next_varint(&mut it) {
                    Ok(v) => v,
                    Err(e) => { return Err(e); },
                };
                let chat_has_colors = match next_bool(&mut it) {
                    Ok(v) => v,
                    Err(e) => { return Err(e); },
                };
                let displayed_skin_parts = match next_u8(&mut it) {
                    Ok(v) => v,
                    Err(e) => { return Err(e); },
                };
                let main_hand = match next_varint(&mut it) {
                    Ok(v) => v,
                    Err(e) => { return Err(e); },
                };
                let enable_text_filtering = match next_bool(&mut it) {
                    Ok(v) => v,
                    Err(e) => { return Err(e); },
                };
                let allow_server_listings = match next_bool(&mut it) {
                    Ok(v) => v,
                    Err(e) => { return Err(e); },
                };
                Ok(
                    ConfigurationPacketType::ClientInformation {
                        locale,
                        view_distance: u8_as_i8(vd),
                        chat_mode,
                        chat_has_colors,
                        displayed_skin_parts,
                        main_hand,
                        enable_text_filtering,
                        allow_server_listings,
                    },
                )
            },
            0x02 => {
                let channel = match next_string(&mut it) {
                    Ok(v) => v,
                    Err(e) => { return Err(e); },
                };
                let ghost rem = it.remaining();
                let n = it.len();
                let data = it.read_bytes(n);
                proof {
                    assert(rem.take(n as int) =~= rem);
                }
                Ok(ConfigurationPacketType::ServerBoundPluginMessage { channel, data })
            },
            0x03 => Ok(ConfigurationPacketType::FinishConfigurationAck),
            0x07 => {
                let count = match next_varint(&mut it) {
                    Ok(v) => v,
                    Err(e) => { return Err(e); },
                };
                match parse_known_packs(&mut it, count) {
                    Ok(known_packs) => Ok(
                        ConfigurationPacketType::ServerBoundKnownPacks { known_packs },
                    ),
                    Err(e) => Err(e),
                }
            },
            _ => Err(ServerError::UnknownPacketId(id)),
        }
    }
}

/// Read `count` known packs at the cursor, exactly as
/// [`spec_take_known_packs`] says.
fn parse_known_packs(data: &mut Reader, count: i32) -> (r: Result<Vec<KnownPack>, ServerError>)
    requires
        old(data).wf(),
    ensures
        final(data).wf(),
        final(data).data == old(data).data,
        match spec_take_known_packs(old(data).remaining(), count as int) {
            Ok(p) => r matches Ok(v) && v@.map_values(|k: KnownPack| k@) == p.0
                && final(data).remaining() == p.1,
            Err(e) => r == Err::<Vec<KnownPack>, ServerError>(e),
        },
{
    let ghost body0 = old(data).remaining();
    let mut known_packs: Vec<KnownPack> = Vec::new();
    let mut i: i32 = 0;
    if count <= 0 {
        proof {
            assert(known_packs@.map_values(|k: KnownPack| k@) =~= Seq::<KnownPackView>::empty());
        }
        return Ok(known_packs);
    }
    while i < count
        invariant
            0 <= i <= count,
            body0 == old(data).remaining(),
            data.wf(),
            data.data == old(data).data,
            spec_take_known_packs(body0, count as int) == match spec_take_known_packs(
                data.remaining(),
                count - i,
            ) {
                Ok(p) => Ok::<(Seq<KnownPackView>, Seq<u8>), ServerError>(
                    (known_packs@.map_values(|k: KnownPack| k@) + p.0, p.1),
                ),
                Err(e) => Err(e),
            },
        decreases count - i,
    {
        let namespace = match next_string(data) {
            Ok(v) => v,
            Err(e) => { return Err(e); },
        };
        let pid = match next_string(data) {
            Ok(v) => v,
            Err(e) => { return Err(e); },
        };
        let version = match next_string(data) {
            Ok(v) => v,
            Err(e) => { return Err(e); },
        };
        let ghost packs_pre = known_packs@.map_values(|k: KnownPack| k@);
        known_packs.push(KnownPack { namespace, id: pid, version });
        i = i + 1;
        proof {
            let kv = known_packs@.last()@;
            let packs_post = known_packs@.map_values(|k: KnownPack| k@);
            assert(packs_post =~= packs_pre.push(kv));
            match spec_take_known_packs(data.remaining(), count - i) {
                Ok(p) => {
                    assert(packs_pre + (seq![kv] + p.0) =~= packs_post + p.0);
                },
                Err(_) => {},
            }
        }
    }
    proof {
        assert(spec_take_known_packs(data.remaining(), 0) == Ok::<
            (Seq<KnownPackView>, Seq<u8>),
            ServerError,
        >((seq![], data.remaining())));
        assert(known_packs@.map_values(|k: KnownPack| k@) + seq![] =~= known_packs@.map_values(
            |k: KnownPack| k@,
        ));
    }
    Ok(known_packs)
}

/// Clientbound configuration packets.
pub enum ConfigurationPacketResponse {
    ClientBoundPluginMessage,
    Disconnect,
    FinishConfiguration,
    RegistryData,
    UpdateTags,
    ClientBoundKnownPacks,
}

impl MCPacketType for ConfigurationPacketResponse {
    open spec fn spec_id(&self) -> i32 {
        match self {
            ConfigurationPacketResponse::ClientBoundPluginMessage => 0x01,
            ConfigurationPacketResponse::Disconnect => 0x02,
            ConfigurationPacketResponse::FinishConfiguration => 0x03,
            ConfigurationPacketResponse::RegistryData => 0x07,
            ConfigurationPacketResponse::UpdateTags => 0x0D,
            ConfigurationPacketResponse::ClientBoundKnownPacks => 0x0E,
        }
    }

    fn id(self) -> i32 {
        match self {
            ConfigurationPacketResponse::ClientBoundPluginMessage => 0x01,
            ConfigurationPacketResponse::Disconnect => 0x02,
            ConfigurationPacketResponse::FinishConfiguration => 0x03,
            ConfigurationPacketResponse::RegistryData => 0x07,
            ConfigurationPacketResponse::UpdateTags => 0x0D,
            ConfigurationPacketResponse::ClientBoundKnownPacks => 0x0E,
        }
    }
}

// ---------------------------------------------------------------------------
// The registry-data payload.
// ---------------------------------------------------------------------------

/// Each entry is its identifier and a has-payload flag that this design
/// always sends as false.
pub open spec fn spec_registry_entries_bytes(es: Seq<RegistryEntryView>) -> Seq<u8>
    decreases es.len(),
{
    if es.len() == 0 {
        seq![]
    } else {
        spec_registry_entries_bytes(es.drop_last()) + spec_mcstring_bytes(es.last().id) + seq![
            spec_bool_byte(false),
        ]
    }
}

pub open spec fn spec_registry_data_payload(id: Seq<char>, es: Seq<RegistryEntryView>) -> Seq<
    u8,
> {
    spec_mcstring_bytes(id) + spec_varint_bytes(es.len() as i32) + spec_registry_entries_bytes(es)
}

pub open spec fn spec_registry_entries_wf(es: Seq<RegistryEntryView>) -> bool {
    forall|i: int| 0 <= i < es.len() ==> (#[trigger] es[i]).id.len() <= 32767
}

impl ConfigurationPacketResponse {
    /// Build the registry-data frame for one registry: its identifier, the
    /// entry count, then each entry's identifier with a false payload flag.
    pub fn registry_data(registry_id: String, entries: Vec<RegistryEntry>) -> (r: Vec<u8>)
        requires
            registry_id@.len() <= 32767,
            spec_registry_entries_wf(entries@.map_values(|e: RegistryEntry| e@)),
            entries@.len() <= 0x7fff_ffff,
            spec_registry_data_payload(
                registry_id@,
                entries@.map_values(|e: RegistryEntry| e@),
            ).len() + 5 <= i32::MAX,
        ensures
            r@ == spec_frame(
                0x07,
                spec_registry_data_payload(
                    registry_id@,
                    entries@.map_values(|e: RegistryEntry| e@),
                ),
            ),
    {
        let ghost es = entries@.map_values(|e: RegistryEntry| e@);
        let mut packet = PacketBuilder::new().set_id(ConfigurationPacketResponse::RegistryData)
            .add_string(registry_id.as_str()).add_varint(entries.len() as i32);
        let n = entries.len();
        let mut i: usize = 0;
        proof {
            assert(spec_registry_entries_bytes(es.take(0)) =~= seq![]);
            assert(packet.payload() =~= spec_mcstring_bytes(registry_id@) + spec_varint_bytes(
                es.len() as i32,
            ) + spec_registry_entries_bytes(es.take(0)));
        }
        while i < n
            invariant
                i <= n == entries@.len(),
                es == entries@.map_values(|e: RegistryEntry| e@),
                spec_registry_entries_wf(es),
                packet.spec_packet_id() == Some(0x07i32),
                packet.payload() == spec_mcstring_bytes(registry_id@) + spec_varint_bytes(
                    es.len() as i32,
                ) + spec_registry_entries_bytes(es.take(i as int)),
            decreases n - i,
        {
            proof {
                assert(es[i as int] == entries@[i as int]@);
            }
            packet = packet.add_string(entries[i].id.as_str()).add_bool(false);
            i = i + 1;
            proof {
                assert(es.take(i as int).drop_last() =~= es.take(i - 1));
                assert(es.take(i as int).last() == es[i - 1]);
                assert(packet.payload() =~= spec_mcstring_bytes(registry_id@) + spec_varint_bytes(
                    es.len() as i32,
                ) + spec_registry_entries_bytes(es.take(i as int)));
            }
        }
        proof {
            assert(es.take(n as int) =~= es);
        }
        match packet.build() {
            Some(v) => v,
            None => {
                proof {
                    assert(false);
                }
                Vec::new()
            },
        }
    }
}

// ---------------------------------------------------------------------------
// The update-tags payload.
// ---------------------------------------------------------------------------

/// A tag member resolved to the numeric id the client indexes with: a block
/// member resolves through the block-state table's default state, any other
/// member through its position in its registry's entry list.
pub open spec fn spec_resolve_member(
    tag_id: Seq<char>,
    member: Seq<char>,
    regs: RegistriesView,
    blocks: Seq<(Seq<char>, Seq<BlockStateView>)>,
) -> Option<i32> {
    if tag_id == "minecraft:block"@ {
        spec_default_state(blocks, member)
    } else {
        match spec_lookup_registry(regs, tag_id) {
            Some(es) => match spec_entry_index(es, member) {
                Some(i) => Some(i as i32),
                None => None,
            },
            None => None,
        }
    }
}

/// A member that resolves contributes its id as a VarInt; one that does not
/// contributes nothing (the count was already written).
pub open spec fn spec_member_bytes(
    tag_id: Seq<char>,
    member: Seq<char>,
    regs: RegistriesView,
    blocks: Seq<(Seq<char>, Seq<BlockStateView>)>,
) -> Seq<u8> {
    match spec_resolve_member(tag_id, member, regs, blocks) {
        Some(id) => spec_varint_bytes(id),
        None => seq![],
    }
}

pub open spec fn spec_members_bytes(
    tag_id: Seq<char>,
    members: Seq<Seq<char>>,
    regs: RegistriesView,
    blocks: Seq<(Seq<char>, Seq<BlockStateView>)>,
) -> Seq<u8>
    decreases members.len(),
{
    if members.len() == 0 {
        seq![]
    } else {
        spec_members_bytes(tag_id, members.drop_last(), regs, blocks) + spec_member_bytes(
            tag_id,
            members.last(),
            regs,
            blocks,
        )
    }
}

pub open spec fn spec_tag_data_bytes(
    tag_id: Seq<char>,
    d: TagEntryDataView,
    regs: RegistriesView,
    blocks: Seq<(Seq<char>, Seq<BlockStateView>)>,
) -> Seq<u8> {
    spec_mcstring_bytes(d.tag_name) + spec_varint_bytes(d.entries.len() as i32)
        + spec_members_bytes(tag_id, d.entries, regs, blocks)
}

pub open spec fn spec_tag_datas_bytes(
    tag_id: Seq<char>,
    ds: Seq<TagEntryDataView>,
    regs: RegistriesView,
    blocks: Seq<(Seq<char>, Seq<BlockStateView>)>,
) -> Seq<u8>
    decreases ds.len(),
{
    if ds.len() == 0 {
        seq![]
    } else {
        spec_tag_datas_bytes(tag_id, ds.drop_last(), regs, blocks) + spec_tag_data_bytes(
            tag_id,
            ds.last(),
            regs,
            blocks,
        )
    }
}

pub open spec fn spec_tag_bytes(
    t: TagEntryView,
    regs: RegistriesView,
    blocks: Seq<(Seq<char>, Seq<BlockStateView>)>,
) -> Seq<u8> {
    spec_mcstring_bytes(t.id) + spec_varint_bytes(t.data.len() as i32) + spec_tag_datas_bytes(
        t.id,
        t.data,
        regs,
        blocks,
    )
}

pub open spec fn spec_tags_bytes(
    ts: Seq<TagEntryView>,
    regs: RegistriesView,
    blocks: Seq<(Seq<char>, Seq<BlockStateView>)>,
) -> Seq<u8>
    decreases ts.len(),
{
    if ts.len() == 0 {
        seq![]
    } else {
        spec_tags_bytes(ts.drop_last(), regs, blocks) + spec_tag_bytes(ts.last(), regs, blocks)
    }
}

pub open spec fn spec_update_tags_payload(
    ts: Seq<TagEntryView>,
    regs: RegistriesView,
    blocks: Seq<(Seq<char>, Seq<BlockStateView>)>,
) -> Seq<u8> {
    spec_varint_bytes(ts.len() as i32) + spec_tags_bytes(ts, regs, blocks)
}

/// What the tag table must satisfy for encoding: strings within the wire
/// cap, counts within VarInt range, and every non-block group resolvable
/// against a registry the snapshot holds.
pub open spec fn spec_tags_wf(ts: Seq<TagEntryView>, regs: RegistriesView) -> bool {
    forall|i: int|
        0 <= i < ts.len() ==> {
            let t = #[trigger] ts[i];
            &&& t.id.len() <= 32767
            &&& t.data.len() <= 0x7fff_ffff
            &&& (forall|j: int|
                0 <= j < t.data.len() ==> (#[trigger] t.data[j]).tag_name.len() <= 32767
                    && t.data[j].entries.len() <= 0x7fff_ffff)
            &&& (t.id != "minecraft:block"@ ==> spec_lookup_registry(regs, t.id) is Some)
        }
}

/// Every registry is small enough that an entry's position fits a VarInt.
pub open spec fn spec_registries_bounded(regs: RegistriesView) -> bool {
    forall|i: int| 0 <= i < regs.len() ==> (#[trigger] regs[i]).1.len() <= 0x7fff_ffff
}

/// First position of the entry named `id`, exactly as [`spec_entry_index`]
/// says; the position is the numeric id sent for the member.
fn registry_entry_index(entries: &Vec<RegistryEntry>, id: &String) -> (r: Option<usize>)
    ensures
        match spec_entry_index(entries@.map_values(|e: RegistryEntry| e@), id@) {
            Some(i) => r == Some(i as usize),
            None => r is None,
        },
{
    let ghost es = entries@.map_values(|e: RegistryEntry| e@);
    let n = entries.len();
    let mut i: usize = 0;
    proof {
        assert(es.skip(0) =~= es);
    }
    while i < n
        invariant
            i <= n == entries@.len(),
            es == entries@.map_values(|e: RegistryEntry| e@),
            spec_entry_index(es, id@) == match spec_entry_index(es.skip(i as int), id@) {
                Some(k) => Some(k + i),
                None => None::<int>,
            },
        decreases n - i,
    {
        proof {
            assert(es.skip(i as int)[0] == es[i as int]);
            assert(es.skip(i as int).drop_first() =~= es.skip(i + 1));
        }
        if entries[i].id.eq(id) {
            return Some(i);
        }
        i = i + 1;
    }
    None
}

impl ConfigurationPacketResponse {
    /// Build the update-tags frame: the group count, then for each group its
    /// registry id, its tags, and each tag's members resolved to numeric
    /// ids. Block members resolve through the block-state table; any other
    /// member through its registry, which the snapshot must hold.
    pub fn update_tags(tags: Vec<TagEntry>, resource_manager: &ResourceManager) -> (r: Vec<u8>)
        requires
            spec_tags_wf(tags@.map_values(|t: TagEntry| t@), resource_manager.registries_view()),
            spec_registries_bounded(resource_manager.registries_view()),
            tags@.len() <= 0x7fff_ffff,
            spec_update_tags_payload(
                tags@.map_values(|t: TagEntry| t@),
                resource_manager.registries_view(),
                resource_manager.blocks_view(),
            ).len() + 5 <= i32::MAX,
        ensures
            r@ == spec_frame(
                0x0D,
                spec_update_tags_payload(
                    tags@.map_values(|t: TagEntry| t@),
                    resource_manager.registries_view(),
                    resource_manager.blocks_view(),
                ),
            ),
    {
        let ghost ts = tags@.map_values(|t: TagEntry| t@);
        let ghost regs = resource_manager.registries_view();
        let ghost blocks = resource_manager.blocks_view();
        let block_key = String::from_str("minecraft:block");
        let mut packet = PacketBuilder::new().set_id(ConfigurationPacketResponse::UpdateTags)
            .add_varint(tags.len() as i32);
        let n = tags.len();
        let mut i: usize = 0;
        proof {
            assert(spec_tags_bytes(ts.take(0), regs, blocks) =~= seq![]);
            assert(packet.payload() =~= spec_varint_bytes(ts.len() as i32) + spec_tags_bytes(
                ts.take(0),
                regs,
                blocks,
            ));
        }
        while i < n
            invariant
                i <= n == tags@.len(),
                ts == tags@.map_values(|t: TagEntry| t@),
                regs == resource_manager.registries_view(),
                blocks == resource_manager.blocks_view(),
                spec_tags_wf(ts, regs),
                spec_registries_bounded(regs),
                block_key@ == "minecraft:block"@,
                packet.spec_packet_id() == Some(0x0Di32),
                packet.payload() == spec_varint_bytes(ts.len() as i32) + spec_tags_bytes(
                    ts.take(i as int),
                    regs,
                    blocks,
                ),
            decreases n - i,
        {
            let ghost t = ts[i as int];
            proof {
                assert(t == tags@[i as int]@);
            }
            packet = packet.add_string(tags[i].id.as_str()).add_varint(tags[i].data.len() as i32);
            let ghost tag_prefix = spec_varint_bytes(ts.len() as i32) + spec_tags_bytes(
                ts.take(i as int),
                regs,
                blocks,
            ) + spec_mcstring_bytes(t.id) + spec_varint_bytes(t.data.len() as i32);
            let m = tags[i].data.len();
            let mut j: usize = 0;
            proof {
                assert(spec_tag_datas_bytes(t.id, t.data.take(0), regs, blocks) =~= seq![]);
                assert(packet.payload() =~= tag_prefix + spec_tag_datas_bytes(
                    t.id,
                    t.data.take(0),
                    regs,
                    blocks,
                ));
            }
            while j < m
                invariant
                    j <= m == tags@[i as int].data@.len(),
                    i < tags@.len(),
                    ts == tags@.map_values(|t2: TagEntry| t2@),
                    t == ts[i as int],
                    m == t.data.len(),
                    regs == resource_manager.registries_view(),
                    blocks == resource_manager.blocks_view(),
                    spec_tags_wf(ts, regs),
                    spec_registries_bounded(regs),
                    block_key@ == "minecraft:block"@,
                    packet.spec_packet_id() == Some(0x0Di32),
                    tag_prefix == spec_varint_bytes(ts.len() as i32) + spec_tags_bytes(
                        ts.take(i as int),
                        regs,
                        blocks,
                    ) + spec_mcstring_bytes(t.id) + spec_varint_bytes(t.data.len() as i32),
                    packet.payload() == tag_prefix + spec_tag_datas_bytes(
                        t.id,
                        t.data.take(j as int),
                        regs,
                        blocks,
                    ),
                decreases m - j,
            {
                let ghost d = t.data[j as int];
                proof {
                    assert(t == tags@[i as int]@);
                    assert(d == tags@[i as int].data@[j as int]@);
                }
                packet = packet.add_string(tags[i].data[j].tag_name.as_str()).add_varint(
                    tags[i].data[j].entries.len() as i32,
                );
                let ghost data_prefix = tag_prefix + spec_tag_datas_bytes(
                    t.id,
                    t.data.take(j as int),
                    regs,
                    blocks,
                ) + spec_mcstring_bytes(d.tag_name) + spec_varint_bytes(d.entries.len() as i32);
                let c = tags[i].data[j].entries.len();
                let mut k: usize = 0;
                proof {
                    assert(spec_members_bytes(t.id, d.entries.take(0), regs, blocks) =~= seq![]);
                    assert(packet.payload() =~= data_prefix + spec_members_bytes(
                        t.id,
                        d.entries.take(0),
                        regs,
                        blocks,
                    ));
                }
                while k < c
                    invariant
                        k <= c == tags@[i as int].data@[j as int].entries@.len(),
                        i < tags@.len(),
                        j < tags@[i as int].data@.len(),
                        ts == tags@.map_values(|t2: TagEntry| t2@),
                        t == ts[i as int],
                        d == t.data[j as int],
                        c == d.entries.len(),
                        regs == resource_manager.registries_view(),
                        blocks == resource_manager.blocks_view(),
                        spec_tags_wf(ts, regs),
                        spec_registries_bounded(regs),
                        block_key@ == "minecraft:block"@,
                        packet.spec_packet_id() == Some(0x0Di32),
                        data_prefix == tag_prefix + spec_tag_datas_bytes(
                            t.id,
                            t.data.take(j as int),
                            regs,
                            blocks,
                        ) + spec_mcstring_bytes(d.tag_name) + spec_varint_bytes(
                            d.entries.len() as i32,
                        ),
                        packet.payload() == data_prefix + spec_members_bytes(
                            t.id,
                            d.entries.take(k as int),
                            regs,
                            blocks,
                        ),
                    decreases c - k,
                {
                    let ghost member = d.entries[k as int];
                    proof {
                        assert(member == tags@[i as int].data@[j as int].entries@[k as int]@);
                    }
                    if tags[i].id.eq(&block_key) {
                        match resource_manager.block_registry_ref().get_blockstate_of_block(
                            &tags[i].data[j].entries[k],
                        ) {
                            Some(entry_id) => {
                                packet = packet.add_varint(entry_id);
                            },
                            None => {},
                        }
                    } else {
                        match resource_manager.get_registry(&tags[i].id) {
                            Some(reg_entries) => {
                                proof {
                                    crate::resource_manager::lemma_registry_index_in_range(
                                        regs,
                                        t.id,
                                    );
                                }
                                match registry_entry_index(reg_entries, &tags[i].data[j].entries[k])
                                    {
                                    Some(idx) => {
                                        proof {
                                            lemma_entry_index_in_range(
                                                reg_entries@.map_values(|e: RegistryEntry| e@),
                                                member,
                                            );
                                        }
                                        packet = packet.add_varint(idx as i32);
                                    },
                                    None => {},
                                }
                            },
                            None => {
                                proof {
                                    assert(false);
                                }
                            },
                        }
                    }
                    k = k + 1;
                    proof {
                        assert(d.entries.take(k as int).drop_last() =~= d.entries.take(k - 1));
                        assert(d.entries.take(k as int).last() == member);
                        assert(packet.payload() =~= data_prefix + spec_members_bytes(
                            t.id,
                            d.entries.take(k as int),
                            regs,
                            blocks,
                        ));
                    }
                }
                j = j + 1;
                proof {
                    assert(d.entries.take(c as int) =~= d.entries);
                    assert(t.data.take(j as int).drop_last() =~= t.data.take(j - 1));
                    assert(t.data.take(j as int).last() == d);
                    assert(packet.payload() =~= tag_prefix + spec_tag_datas_bytes(
                        t.id,
                        t.data.take(j as int),
                        regs,
                        blocks,
                    ));
                }
            }
            i = i + 1;
            proof {
                assert(t.data.take(m as int) =~= t.data);
                assert(ts.take(i as int).drop_last() =~= ts.take(i - 1));
                assert(ts.take(i as int).last() == t);
                assert(packet.payload() =~= spec_varint_bytes(ts.len() as i32) + spec_tags_bytes(
                    ts.take(i as int),
                    regs,
                    blocks,
                ));
            }
        }
        proof {
            assert(ts.take(n as int) =~= ts);
        }
        match packet.build() {
            Some(v) => v,
            None => {
                proof {
                    assert(false);
                }
                Vec::new()
            },
        }
    }
}

} // verus!
