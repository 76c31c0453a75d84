use vstd::prelude::*;
use vstd::string::*;
use crate::model::common::{paired_rows, row_view, rows_view, tag_maps, SongGroup, SongGroupView, TagMap};
use crate::error::{MusingError, MusingErrorView};
use crate::json::{
    add_member,
    items_view,
    json_view,
    lemma_items_view,
    lemma_members_view,
    members_view,
    Json,
    JsonView,
};
use crate::model::musing::{delta_of, number_of, MusingStateDelta, MusingStateDeltaView};
use crate::text::{same_text, text_of_bytes, texts, to_decimal};
use crate::wire::{frame, message_of, payload_of, read_msg, write_msg};
use vstd::utf8::*;

verus! {

/// What stands in for a tag that a song does not have.
pub const UNKNOWN: &'static str = "<unknown>";

/// A request to the server.
#[derive(Debug, PartialEq, Eq)]
pub enum MusingRequest {
    Metadata(Vec<String>, Option<Vec<String>>),
    GroupedSongs(Vec<String>, Vec<String>),
    StateDelta,
    Seek(i64),
    Speed(i16),
    Volume(i8),
    AddToQueue(Vec<String>),
    Play(u64),
    Remove(u64),
    Update,
    Other(String),
}

/// The mathematical value of a [`MusingRequest`].
pub enum MusingRequestView {
    Metadata(Seq<Seq<char>>, Option<Seq<Seq<char>>>),
    GroupedSongs(Seq<Seq<char>>, Seq<Seq<char>>),
    StateDelta,
    Seek(i64),
    Speed(i16),
    Volume(i8),
    AddToQueue(Seq<Seq<char>>),
    Play(u64),
    Remove(u64),
    Update,
    Other(Seq<char>),
}

impl View for MusingRequest {
    type V = MusingRequestView;

    open spec fn view(&self) -> MusingRequestView {
        match self {
            MusingRequest::Metadata(paths, tags) => MusingRequestView::Metadata(
                texts(paths@),
                match tags {
                    Some(tags) => Some(texts(tags@)),
                    None => None,
                },
            ),
            MusingRequest::GroupedSongs(group_by, children_tags) => MusingRequestView::GroupedSongs(
                texts(group_by@),
                texts(children_tags@),
            ),
            MusingRequest::StateDelta => MusingRequestView::StateDelta,
            MusingRequest::Seek(seconds) => MusingRequestView::Seek(*seconds),
            MusingRequest::Speed(delta) => MusingRequestView::Speed(*delta),
            MusingRequest::Volume(delta) => MusingRequestView::Volume(*delta),
            MusingRequest::AddToQueue(paths) => MusingRequestView::AddToQueue(texts(paths@)),
            MusingRequest::Play(id) => MusingRequestView::Play(*id),
            MusingRequest::Remove(id) => MusingRequestView::Remove(*id),
            MusingRequest::Update => MusingRequestView::Update,
            MusingRequest::Other(kind) => MusingRequestView::Other(kind@),
        }
    }
}

/// The object `{"kind": kind}` with more members after it.
pub open spec fn request_object(kind: Seq<char>, more: Seq<(Seq<char>, JsonView)>) -> JsonView {
    JsonView::Object(seq![("kind"@, JsonView::Text(kind))] + more)
}

/// One comparator for each tag: the object `{"tag": tag}`.
pub open spec fn comparators(tags: Seq<Seq<char>>) -> JsonView {
    JsonView::List(tags.map_values(|tag: Seq<char>| JsonView::Object(seq![("tag"@, JsonView::Text(tag))])))
}

impl MusingRequestView {
    /// The document that is sent for the request.
    pub open spec fn json(self) -> JsonView {
        match self {
            MusingRequestView::Metadata(paths, tags) => request_object(
                "metadata"@,
                seq![
                    ("paths"@, JsonView::of_texts(paths)),
                    match tags {
                        Some(tags) => ("tags"@, JsonView::of_texts(tags)),
                        None => ("all_tags"@, JsonView::Bool(true)),
                    },
                ],
            ),
            MusingRequestView::GroupedSongs(group_by, children_tags) => request_object(
                "select"@,
                seq![
                    ("tags"@, JsonView::of_texts(children_tags)),
                    ("group_by"@, JsonView::of_texts(group_by)),
                    ("comparators"@, comparators(children_tags)),
                ],
            ),
            MusingRequestView::StateDelta => request_object("state"@, seq![]),
            MusingRequestView::Seek(seconds) => request_object(
                "seek"@,
                seq![("seconds"@, JsonView::of_int(seconds))],
            ),
            MusingRequestView::Speed(delta) => request_object(
                "speed"@,
                seq![("delta"@, JsonView::of_int(delta as i64))],
            ),
            MusingRequestView::Volume(delta) => request_object(
                "volume"@,
                seq![("delta"@, JsonView::of_int(delta as i64))],
            ),
            MusingRequestView::AddToQueue(paths) => request_object(
                "addqueue"@,
                seq![("paths"@, JsonView::of_texts(paths))],
            ),
            MusingRequestView::Play(id) => request_object("play"@, seq![("id"@, JsonView::Unsigned(id))]),
            MusingRequestView::Remove(id) => request_object(
                "removequeue"@,
                seq![("ids"@, JsonView::List(seq![JsonView::Unsigned(id)]))],
            ),
            MusingRequestView::Update => request_object("update"@, seq![]),
            MusingRequestView::Other(kind) => request_object(kind, seq![]),
        }
    }
}

/// Starts the members of a request with its kind.
fn request_members(kind: &str) -> (r: Vec<(String, Json)>)
    ensures
        members_view(r@) == seq![("kind"@, JsonView::Text(kind@))],
{
    let mut members: Vec<(String, Json)> = Vec::new();
    assert(members_view(members@) =~= Seq::empty());
    add_member(&mut members, "kind", Json::text(kind));
    assert(members_view(members@) =~= seq![("kind"@, JsonView::Text(kind@))]);
    members
}

/// The comparators of a selection.
fn comparators_of(tags: &Vec<String>) -> (r: Json)
    ensures
        r@ == comparators(texts(tags@)),
{
    let mut items: Vec<Json> = Vec::new();
    let mut i: usize = 0;
    while i < tags.len()
        invariant
            i <= tags@.len(),
            items@.len() == i,
            forall|k: int|
                0 <= k < i ==> json_view(#[trigger] items@[k]) == JsonView::Object(
                    seq![("tag"@, JsonView::Text(tags@[k]@))],
                ),
        decreases tags@.len() - i,
    {
        let mut members: Vec<(String, Json)> = Vec::new();
        assert(members_view(members@) =~= Seq::empty());
        add_member(&mut members, "tag", Json::Text(tags[i].clone()));
        assert(members_view(members@) =~= seq![("tag"@, JsonView::Text(tags@[i as int]@))]);
        items.push(Json::Object(members));
        i += 1;
    }
    proof {
        lemma_items_view(items@);
        assert(items_view(items@) =~= texts(tags@).map_values(
            |tag: Seq<char>| JsonView::Object(seq![("tag"@, JsonView::Text(tag))]),
        ));
    }
    Json::List(items)
}

/// The request for the tags of the songs at `paths`: the tags listed, or all.
pub fn metadata_request(paths: &Vec<String>, tags: &Option<Vec<String>>) -> (r: Json)
    ensures
        r@ == MusingRequestView::Metadata(
            texts(paths@),
            match tags {
                Some(tags) => Some(texts(tags@)),
                None => None,
            },
        ).json(),
{
    let ghost request = MusingRequestView::Metadata(
        texts(paths@),
        match tags {
            Some(tags) => Some(texts(tags@)),
            None => None,
        },
    );
    let mut members = request_members("metadata");
    add_member(&mut members, "paths", Json::texts(paths.as_slice()));
    match tags {
        Some(tags) => add_member(&mut members, "tags", Json::texts(tags.as_slice())),
        None => add_member(&mut members, "all_tags", Json::Bool(true)),
    }
    assert(members_view(members@) =~= request.json()->Object_0);
    Json::Object(members)
}

/// The request for all songs, grouped by the tags `group_by`, each song with
/// the tags `children_tags` and sorted by them.
pub fn select_request(group_by: &Vec<String>, children_tags: &Vec<String>) -> (r: Json)
    ensures
        r@ == MusingRequestView::GroupedSongs(texts(group_by@), texts(children_tags@)).json(),
{
    let mut members = request_members("select");
    add_member(&mut members, "tags", Json::texts(children_tags.as_slice()));
    add_member(&mut members, "group_by", Json::texts(group_by.as_slice()));
    add_member(&mut members, "comparators", comparators_of(children_tags));
    assert(members_view(members@) =~= seq![("kind"@, JsonView::Text("select"@))] + seq![
        ("tags"@, JsonView::of_texts(texts(children_tags@))),
        ("group_by"@, JsonView::of_texts(texts(group_by@))),
        ("comparators"@, comparators(texts(children_tags@))),
    ]);
    Json::Object(members)
}

/// The request to move by `seconds` in the current song.
pub fn seek(seconds: i64) -> (r: Json)
    ensures
        r@ == MusingRequestView::Seek(seconds).json(),
{
    let mut members = request_members("seek");
    add_member(&mut members, "seconds", Json::from_i64(seconds));
    assert(members_view(members@) =~= seq![("kind"@, JsonView::Text("seek"@))] + seq![
        ("seconds"@, JsonView::of_int(seconds)),
    ]);
    Json::Object(members)
}

/// The request to change the speed by `delta`.
pub fn speed(delta: i16) -> (r: Json)
    ensures
        r@ == MusingRequestView::Speed(delta).json(),
{
    let mut members = request_members("speed");
    add_member(&mut members, "delta", Json::from_i64(delta as i64));
    assert(members_view(members@) =~= seq![("kind"@, JsonView::Text("speed"@))] + seq![
        ("delta"@, JsonView::of_int(delta as i64)),
    ]);
    Json::Object(members)
}

/// The request to change the volume by `delta`.
pub fn volume(delta: i8) -> (r: Json)
    ensures
        r@ == MusingRequestView::Volume(delta).json(),
{
    let mut members = request_members("volume");
    add_member(&mut members, "delta", Json::from_i64(delta as i64));
    assert(members_view(members@) =~= seq![("kind"@, JsonView::Text("volume"@))] + seq![
        ("delta"@, JsonView::of_int(delta as i64)),
    ]);
    Json::Object(members)
}

/// The request to add the songs at `paths` to the queue.
pub fn add_to_queue(paths: &Vec<String>) -> (r: Json)
    ensures
        r@ == MusingRequestView::AddToQueue(texts(paths@)).json(),
{
    let mut members = request_members("addqueue");
    add_member(&mut members, "paths", Json::texts(paths.as_slice()));
    assert(members_view(members@) =~= seq![("kind"@, JsonView::Text("addqueue"@))] + seq![
        ("paths"@, JsonView::of_texts(texts(paths@))),
    ]);
    Json::Object(members)
}

/// The request to play the song of the queue with this id.
pub fn play(id: u64) -> (r: Json)
    ensures
        r@ == MusingRequestView::Play(id).json(),
{
    let mut members = request_members("play");
    add_member(&mut members, "id", Json::Unsigned(id));
    assert(members_view(members@) =~= seq![("kind"@, JsonView::Text("play"@))] + seq![
        ("id"@, JsonView::Unsigned(id)),
    ]);
    Json::Object(members)
}

/// The request to take the song with this id out of the queue.
pub fn remove(id: u64) -> (r: Json)
    ensures
        r@ == MusingRequestView::Remove(id).json(),
{
    let mut members = request_members("removequeue");
    let ids: Vec<Json> = vec![Json::Unsigned(id)];
    proof {
        lemma_items_view(ids@);
        assert(items_view(ids@) =~= seq![JsonView::Unsigned(id)]);
    }
    add_member(&mut members, "ids", Json::List(ids));
    assert(members_view(members@) =~= seq![("kind"@, JsonView::Text("removequeue"@))] + seq![
        ("ids"@, JsonView::List(seq![JsonView::Unsigned(id)])),
    ]);
    Json::Object(members)
}

// a convenience function for requests that have neither any additional
// arguments nor a meaningful positive response
pub fn other(kind: &str) -> (r: Json)
    ensures
        r@ == MusingRequestView::Other(kind@).json(),
{
    let members = request_members(kind);
    assert(members_view(members@) =~= seq![("kind"@, JsonView::Text(kind@))] + seq![]);
    Json::Object(members)
}

impl MusingRequest {
    /// The document that is sent for the request.
    pub fn to_json(&self) -> (r: Json)
        ensures
            r@ == self@.json(),
    {
        match self {
            MusingRequest::Metadata(paths, tags) => metadata_request(paths, tags),
            MusingRequest::GroupedSongs(group_by, children_tags) => select_request(
                group_by,
                children_tags,
            ),
            MusingRequest::StateDelta => {
                proof {
                    reveal_strlit("state");
                }
                let r = other("state");
                assert(r@ == self@.json());
                r
            },
            MusingRequest::Seek(seconds) => seek(*seconds),
            MusingRequest::Speed(delta) => speed(*delta),
            MusingRequest::Volume(delta) => volume(*delta),
            MusingRequest::AddToQueue(paths) => add_to_queue(paths),
            MusingRequest::Play(id) => play(*id),
            MusingRequest::Remove(id) => remove(*id),
            MusingRequest::Update => other("update"),
            MusingRequest::Other(kind) => other(kind.as_str()),
        }
    }
}

/// What the server answered, or why there is no answer.
#[derive(Debug, PartialEq, Eq)]
pub enum MusingResponse {
    Error(String),
    Metadata(Vec<TagMap>),
    GroupedSongs(Vec<(Vec<String>, SongGroup)>),
    StateDelta(MusingStateDelta),
    Update(String),
}

/// The mathematical value of a [`MusingResponse`].
pub enum MusingResponseView {
    Error(Seq<char>),
    Metadata(Seq<Map<Seq<char>, Seq<char>>>),
    GroupedSongs(Seq<(Seq<Seq<char>>, SongGroupView)>),
    StateDelta(MusingStateDeltaView),
    Update(Seq<char>),
}

/// The groups of a list, each with the tag values that name it.
pub open spec fn groups_view(groups: Seq<(Vec<String>, SongGroup)>) -> Seq<
    (Seq<Seq<char>>, SongGroupView),
> {
    groups.map_values(|g: (Vec<String>, SongGroup)| (texts(g.0@), g.1@))
}

impl View for MusingResponse {
    type V = MusingResponseView;

    open spec fn view(&self) -> MusingResponseView {
        match self {
            MusingResponse::Error(reason) => MusingResponseView::Error(reason@),
            MusingResponse::Metadata(rows) => MusingResponseView::Metadata(tag_maps(rows@)),
            MusingResponse::GroupedSongs(groups) => MusingResponseView::GroupedSongs(groups_view(groups@)),
            MusingResponse::StateDelta(delta) => MusingResponseView::StateDelta(delta@),
            MusingResponse::Update(summary) => MusingResponseView::Update(summary@),
        }
    }
}

/// The value of a tag: the string itself, or [`UNKNOWN`] for anything else.
pub open spec fn tag_text(value: JsonView) -> Seq<char> {
    match value {
        JsonView::Text(s) => s,
        _ => UNKNOWN@,
    }
}

/// The tags that the members of an object give: each name with its value.
pub open spec fn tags_of(members: Seq<(Seq<char>, JsonView)>) -> Map<Seq<char>, Seq<char>>
    decreases members.len(),
{
    if members.len() == 0 {
        Map::empty()
    } else {
        tags_of(members.drop_last()).insert(members.last().0, tag_text(members.last().1))
    }
}

/// The tags of one song in a reply: those of an object, none for anything else.
pub open spec fn row_of(item: JsonView) -> Map<Seq<char>, Seq<char>> {
    match item {
        JsonView::Object(members) => tags_of(members),
        _ => Map::empty(),
    }
}

/// The rows of a reply to a metadata request: one for each item of the list
/// `metadata`, or `None` where the reply holds no such list.
pub open spec fn metadata_of(reply: JsonView) -> Option<Seq<Map<Seq<char>, Seq<char>>>> {
    match reply.field("metadata"@) {
        Some(JsonView::List(items)) => Some(items.map_values(|item: JsonView| row_of(item))),
        _ => None,
    }
}

/// The summary of a reply to an update: the numbers of songs added and
/// removed, each 0 where the reply does not say, or `None` where the reply
/// does not report success.
pub open spec fn update_of(reply: JsonView) -> Option<Seq<char>> {
    if reply.field("status"@) == Some(JsonView::Text("ok"@)) {
        let added = match number_of(reply.field("added_songs"@)) {
            Some(n) => n,
            None => 0,
        };
        let removed = match number_of(reply.field("removed_songs"@)) {
            Some(n) => n,
            None => 0,
        };
        Some(
            "update successful, added "@ + crate::text::decimal(added as nat) + " songs, removed "@
                + crate::text::decimal(removed as nat) + " songs"@,
        )
    } else {
        None
    }
}

/// The value of a tag in a reply.
fn tag_text_from(value: &Json) -> (r: String)
    ensures
        r@ == tag_text(value@),
{
    match value.as_str() {
        Some(s) => s.to_string(),
        None => UNKNOWN.to_string(),
    }
}

/// The tags of one song in a reply.
fn row_from(item: &Json) -> (r: TagMap)
    ensures
        r@ == row_of(item@),
{
    let mut map = TagMap::new();
    match item.as_object() {
        Some(members) => {
            proof {
                lemma_members_view(members@);
            }
            let ghost all = members_view(members@);
            let mut i: usize = 0;
            while i < members.len()
                invariant
                    i <= members@.len(),
                    all == members_view(members@),
                    all.len() == members@.len(),
                    forall|k: int|
                        0 <= k < members@.len() ==> #[trigger] all[k] == (
                            members@[k].0@,
                            json_view(members@[k].1),
                        ),
                    map@ == tags_of(all.take(i as int)),
                decreases members@.len() - i,
            {
                assert(all.take(i as int + 1).drop_last() =~= all.take(i as int));
                map.insert(members[i].0.clone(), tag_text_from(&members[i].1));
                i += 1;
            }
            assert(all.take(i as int) =~= all);
        },
        None => {},
    }
    map
}

/// The rows of a reply to a metadata request.
pub fn metadata(reply: &Json) -> (r: Result<Vec<TagMap>, MusingError>)
    ensures
        match r {
            Ok(rows) => metadata_of(reply@) == Some(tag_maps(rows@)),
            Err(e) => metadata_of(reply@).is_none() && e == MusingError::NoMetadata,
        },
{
    let items = match reply.get("metadata") {
        Some(found) => match found.as_array() {
            Some(items) => items,
            None => {
                return Err(MusingError::NoMetadata);
            },
        },
        None => {
            return Err(MusingError::NoMetadata);
        },
    };
    proof {
        lemma_items_view(items@);
    }
    let mut rows: Vec<TagMap> = Vec::new();
    let mut i: usize = 0;
    while i < items.len()
        invariant
            i <= items@.len(),
            rows@.len() == i,
            forall|k: int| 0 <= k < i ==> (#[trigger] rows@[k])@ == row_of(json_view(items@[k])),
        decreases items@.len() - i,
    {
        rows.push(row_from(&items[i]));
        i += 1;
    }
    assert(tag_maps(rows@) =~= items_view(items@).map_values(|item: JsonView| row_of(item)));
    Ok(rows)
}

/// The whole number of a member, or 0.
fn count_from(reply: &Json, key: &str) -> (r: u64)
    ensures
        r == match number_of(reply@.field(key@)) {
            Some(n) => n,
            None => 0,
        },
{
    match reply.get(key) {
        Some(x) => match x.as_u64() {
            Some(n) => n,
            None => 0,
        },
        None => 0,
    }
}

/// The summary of a reply to an update.
pub fn update(reply: &Json) -> (r: Result<String, MusingError>)
    ensures
        match r {
            Ok(summary) => update_of(reply@) == Some(summary@),
            Err(e) => update_of(reply@).is_none() && e == MusingError::UpdateFailed,
        },
{
    let ok = match reply.get("status") {
        Some(status) => match status.as_str() {
            Some(s) => same_text(s, "ok"),
            None => false,
        },
        None => false,
    };
    if !ok {
        return Err(MusingError::UpdateFailed);
    }
    let added = count_from(reply, "added_songs");
    let removed = count_from(reply, "removed_songs");
    Ok(
        "update successful, added ".to_string().concat(to_decimal(added).as_str()).concat(
            " songs, removed ",
        ).concat(to_decimal(removed).as_str()).concat(" songs"),
    )
}

/// Whether the tag at position `i` also stands at an earlier position.
pub open spec fn repeated(tags: Seq<Seq<char>>, i: int) -> bool {
    exists|j: int| 0 <= j < i && tags[j] == tags[i]
}

/// The value that names a group for the tag at position `i`: the group's
/// value of that tag, and [`UNKNOWN`] where the group has none, or where the
/// same tag was already asked for at an earlier position.
pub open spec fn id_part(group: JsonView, group_by: Seq<Seq<char>>, i: int) -> Seq<char> {
    if repeated(group_by, i) {
        UNKNOWN@
    } else {
        match group.field(group_by[i]) {
            Some(value) => tag_text(value),
            None => UNKNOWN@,
        }
    }
}

/// The values that name a group, one for each tag of `group_by`.
pub open spec fn id_of(group: JsonView, group_by: Seq<Seq<char>>) -> Seq<Seq<char>> {
    Seq::new(group_by.len(), |i: int| id_part(group, group_by, i))
}

/// The songs of a group as the reply lists them: the member `data`, unless
/// `data` is itself one of the tags that name the group.
pub open spec fn data_of(group: JsonView, group_by: Seq<Seq<char>>) -> Option<JsonView> {
    if group_by.contains("data"@) {
        None
    } else {
        group.field("data"@)
    }
}

/// The tag values of one song: its first cells, as many as there are tags,
/// each a string or missing.
pub open spec fn song_row(cells: Seq<JsonView>, width: nat) -> Seq<Option<Seq<char>>> {
    cells.take(
        if width <= cells.len() {
            width as int
        } else {
            cells.len() as int
        },
    ).map_values(|cell: JsonView| cell.as_text())
}

/// The path of one song: its last cell.
pub open spec fn song_path(cells: Seq<JsonView>) -> Seq<char> {
    if cells.len() == 0 {
        UNKNOWN@
    } else {
        tag_text(cells.last())
    }
}

/// The tag values of the songs of a list; an item that is no list is no song.
pub open spec fn song_rows(items: Seq<JsonView>, width: nat) -> Seq<Seq<Option<Seq<char>>>>
    decreases items.len(),
{
    if items.len() == 0 {
        Seq::empty()
    } else {
        let rest = song_rows(items.drop_last(), width);
        match items.last() {
            JsonView::List(cells) => rest.push(song_row(cells, width)),
            _ => rest,
        }
    }
}

/// The paths of the songs of a list; an item that is no list is no song.
pub open spec fn song_paths(items: Seq<JsonView>) -> Seq<Seq<char>>
    decreases items.len(),
{
    if items.len() == 0 {
        Seq::empty()
    } else {
        let rest = song_paths(items.drop_last());
        match items.last() {
            JsonView::List(cells) => rest.push(song_path(cells)),
            _ => rest,
        }
    }
}

/// The songs that one group of a reply adds.
pub open spec fn group_songs(group: JsonView, group_by: Seq<Seq<char>>, tags: Seq<Seq<char>>) -> SongGroupView {
    match data_of(group, group_by) {
        Some(JsonView::List(items)) => SongGroupView {
            metadata: paired_rows(tags, song_rows(items, tags.len())),
            paths: song_paths(items),
        },
        _ => SongGroupView { metadata: Seq::empty(), paths: Seq::empty() },
    }
}

/// No two groups have the same name.
pub open spec fn distinct_ids(groups: Seq<(Seq<Seq<char>>, SongGroupView)>) -> bool {
    forall|i: int, j: int| 0 <= i < j < groups.len() ==> groups[i].0 != groups[j].0
}

/// The groups with more songs under the name `id`: added to the group of
/// that name, or as a new group at the end.
pub open spec fn add_group(
    groups: Seq<(Seq<Seq<char>>, SongGroupView)>,
    id: Seq<Seq<char>>,
    songs: SongGroupView,
) -> Seq<(Seq<Seq<char>>, SongGroupView)> {
    if exists|i: int| 0 <= i < groups.len() && groups[i].0 == id {
        let i = choose|i: int| 0 <= i < groups.len() && groups[i].0 == id;
        groups.update(
            i,
            (
                id,
                SongGroupView {
                    metadata: groups[i].1.metadata + songs.metadata,
                    paths: groups[i].1.paths + songs.paths,
                },
            ),
        )
    } else {
        groups.push((id, songs))
    }
}

/// The groups that the first `n` values of a reply give. A value that is no
/// object gives nothing.
pub open spec fn grouped_upto(
    values: Seq<JsonView>,
    group_by: Seq<Seq<char>>,
    tags: Seq<Seq<char>>,
    n: nat,
) -> Seq<(Seq<Seq<char>>, SongGroupView)>
    decreases n,
{
    if n == 0 {
        Seq::empty()
    } else {
        let rest = grouped_upto(values, group_by, tags, (n - 1) as nat);
        match values[n - 1] {
            JsonView::Object(_) => add_group(
                rest,
                id_of(values[n - 1], group_by),
                group_songs(values[n - 1], group_by, tags),
            ),
            _ => rest,
        }
    }
}

/// The groups of a reply to a selection: those of the list `values`, in the
/// order in which their names first occur, or `None` where the reply holds
/// no such list.
pub open spec fn grouped_of(group_by: Seq<Seq<char>>, tags: Seq<Seq<char>>, reply: JsonView) -> Option<
    Seq<(Seq<Seq<char>>, SongGroupView)>,
> {
    match reply.field("values"@) {
        Some(JsonView::List(values)) => Some(grouped_upto(values, group_by, tags, values.len())),
        _ => None,
    }
}

/// Adding a group keeps the names distinct.
pub proof fn lemma_add_group_distinct(
    groups: Seq<(Seq<Seq<char>>, SongGroupView)>,
    id: Seq<Seq<char>>,
    songs: SongGroupView,
)
    requires
        distinct_ids(groups),
    ensures
        distinct_ids(add_group(groups, id, songs)),
{
}

/// The groups of a reply never share a name.
pub proof fn lemma_grouped_distinct(
    values: Seq<JsonView>,
    group_by: Seq<Seq<char>>,
    tags: Seq<Seq<char>>,
    n: nat,
)
    ensures
        distinct_ids(grouped_upto(values, group_by, tags, n)),
    decreases n,
{
    if n > 0 {
        lemma_grouped_distinct(values, group_by, tags, (n - 1) as nat);
        lemma_add_group_distinct(
            grouped_upto(values, group_by, tags, (n - 1) as nat),
            id_of(values[n - 1], group_by),
            group_songs(values[n - 1], group_by, tags),
        );
    }
}

/// Whether two lists hold the same strings.
fn same_texts(a: &Vec<String>, b: &Vec<String>) -> (r: bool)
    ensures
        r == (texts(a@) == texts(b@)),
{
    if a.len() != b.len() {
        assert(texts(a@).len() != texts(b@).len());
        return false;
    }
    let mut i: usize = 0;
    while i < a.len()
        invariant
            i <= a@.len(),
            a@.len() == b@.len(),
            forall|k: int| 0 <= k < i ==> a@[k]@ == b@[k]@,
        decreases a@.len() - i,
    {
        if !same_text(a[i].as_str(), b[i].as_str()) {
            assert(texts(a@)[i as int] != texts(b@)[i as int]);
            return false;
        }
        i += 1;
    }
    assert(texts(a@) =~= texts(b@));
    true
}

/// Whether a string stands in a list before position `end`.
fn occurs_before(list: &Vec<String>, end: usize, s: &str) -> (r: bool)
    requires
        end <= list@.len(),
    ensures
        r == exists|j: int| 0 <= j < end && texts(list@)[j] == s@,
{
    let mut j: usize = 0;
    while j < end
        invariant
            j <= end <= list@.len(),
            forall|k: int| 0 <= k < j ==> texts(list@)[k] != s@,
        decreases end - j,
    {
        if same_text(list[j].as_str(), s) {
            assert(texts(list@)[j as int] == s@);
            return true;
        }
        j += 1;
    }
    false
}

/// The values that name a group.
fn id_from(group: &Json, group_by: &Vec<String>) -> (r: Vec<String>)
    ensures
        texts(r@) == id_of(group@, texts(group_by@)),
{
    let mut id: Vec<String> = Vec::new();
    let mut i: usize = 0;
    while i < group_by.len()
        invariant
            i <= group_by@.len(),
            id@.len() == i,
            forall|k: int| 0 <= k < i ==> (#[trigger] id@[k])@ == id_part(group@, texts(group_by@), k),
        decreases group_by@.len() - i,
    {
        let tag = group_by[i].as_str();
        let part = if occurs_before(group_by, i, tag) {
            UNKNOWN.to_string()
        } else {
            match group.get(tag) {
                Some(value) => tag_text_from(value),
                None => UNKNOWN.to_string(),
            }
        };
        id.push(part);
        i += 1;
    }
    assert(texts(id@) =~= id_of(group@, texts(group_by@)));
    id
}

/// The tag values of one song.
fn song_row_from(cells: &Vec<Json>, width: usize) -> (r: Vec<Option<String>>)
    ensures
        row_view(r@) == song_row(items_view(cells@), width as nat),
{
    proof {
        lemma_items_view(cells@);
    }
    let n: usize = if width <= cells.len() {
        width
    } else {
        cells.len()
    };
    let mut row: Vec<Option<String>> = Vec::new();
    let mut j: usize = 0;
    while j < n
        invariant
            j <= n <= cells@.len(),
            row@.len() == j,
            forall|k: int|
                0 <= k < j ==> row_view(row@)[k] == json_view(#[trigger] cells@[k]).as_text(),
        decreases n - j,
    {
        let cell = match cells[j].as_str() {
            Some(s) => Some(s.to_string()),
            None => None,
        };
        row.push(cell);
        j += 1;
    }
    assert(row_view(row@) =~= song_row(items_view(cells@), width as nat));
    row
}

/// The path of one song.
fn song_path_from(cells: &Vec<Json>) -> (r: String)
    ensures
        r@ == song_path(items_view(cells@)),
{
    proof {
        lemma_items_view(cells@);
    }
    if cells.len() == 0 {
        UNKNOWN.to_string()
    } else {
        tag_text_from(&cells[cells.len() - 1])
    }
}

/// The songs that one group of a reply adds.
fn group_songs_from(group: &Json, group_by: &Vec<String>, tags: &Vec<String>) -> (r: SongGroup)
    ensures
        r@ == group_songs(group@, texts(group_by@), texts(tags@)),
{
    let mut rows: Vec<Vec<Option<String>>> = Vec::new();
    let mut paths: Vec<String> = Vec::new();
    let hidden = occurs_before(group_by, group_by.len(), "data");
    assert(hidden == texts(group_by@).contains("data"@));
    if !hidden {
        match group.get("data") {
            Some(data) => match data.as_array() {
                Some(items) => {
                    proof {
                        lemma_items_view(items@);
                    }
                    let ghost all = items_view(items@);
                    let mut i: usize = 0;
                    assert(all.take(0) =~= Seq::empty());
                    assert(rows_view(rows@) =~= Seq::empty());
                    assert(texts(paths@) =~= Seq::empty());
                    while i < items.len()
                        invariant
                            i <= items@.len(),
                            all == items_view(items@),
                            all.len() == items@.len(),
                            forall|k: int| 0 <= k < items@.len() ==> #[trigger] all[k] == json_view(items@[k]),
                            rows_view(rows@) == song_rows(all.take(i as int), tags@.len()),
                            texts(paths@) == song_paths(all.take(i as int)),
                        decreases items@.len() - i,
                    {
                        assert(all.take(i as int + 1).drop_last() =~= all.take(i as int));
                        match items[i].as_array() {
                            Some(cells) => {
                                let row = song_row_from(cells, tags.len());
                                let path = song_path_from(cells);
                                assert(rows_view(rows@.push(row)) =~= rows_view(rows@).push(row_view(row@)));
                                assert(texts(paths@.push(path)) =~= texts(paths@).push(path@));
                                rows.push(row);
                                paths.push(path);
                            },
                            None => {},
                        }
                        i += 1;
                    }
                    assert(all.take(i as int) =~= all);
                },
                None => {},
            },
            None => {},
        }
    }
    let r = SongGroup::new(tags.as_slice(), rows.as_slice(), paths.as_slice());
    proof {
        if !(data_of(group@, texts(group_by@)) matches Some(JsonView::List(_))) {
            assert(rows_view(rows@) =~= Seq::empty());
            assert(texts(paths@) =~= Seq::empty());
            assert(r@.metadata =~= Seq::empty());
        }
    }
    r
}

/// The position of the group called `id`.
fn find_group(groups: &Vec<(Vec<String>, SongGroup)>, id: &Vec<String>) -> (r: Option<usize>)
    ensures
        match r {
            Some(i) => i < groups@.len() && groups_view(groups@)[i as int].0 == texts(id@),
            None => forall|k: int| 0 <= k < groups@.len() ==> groups_view(groups@)[k].0 != texts(id@),
        },
{
    let mut i: usize = 0;
    while i < groups.len()
        invariant
            i <= groups@.len(),
            forall|k: int| 0 <= k < i ==> groups_view(groups@)[k].0 != texts(id@),
        decreases groups@.len() - i,
    {
        if same_texts(&groups[i].0, id) {
            return Some(i);
        }
        i += 1;
    }
    None
}

/// The groups of a reply to a selection by `group_by`, each song with the
/// tags `children_tags`.
pub fn grouped_songs(group_by: &Vec<String>, children_tags: &Vec<String>, reply: &Json) -> (r: Result<
    Vec<(Vec<String>, SongGroup)>,
    MusingError,
>)
    ensures
        match r {
            Ok(groups) => grouped_of(texts(group_by@), texts(children_tags@), reply@) == Some(
                groups_view(groups@),
            ) && distinct_ids(groups_view(groups@)),
            Err(e) => grouped_of(texts(group_by@), texts(children_tags@), reply@).is_none() && e
                == MusingError::NoSongs,
        },
{
    let values = match reply.get("values") {
        Some(found) => match found.as_array() {
            Some(values) => values,
            None => {
                return Err(MusingError::NoSongs);
            },
        },
        None => {
            return Err(MusingError::NoSongs);
        },
    };
    proof {
        lemma_items_view(values@);
    }
    let ghost all = items_view(values@);
    let ghost by = texts(group_by@);
    let ghost tags = texts(children_tags@);
    let mut grouped: Vec<(Vec<String>, SongGroup)> = Vec::new();
    let mut i: usize = 0;
    assert(groups_view(grouped@) =~= Seq::empty());
    while i < values.len()
        invariant
            i <= values@.len(),
            all == items_view(values@),
            by == texts(group_by@),
            tags == texts(children_tags@),
            all.len() == values@.len(),
            forall|k: int| 0 <= k < values@.len() ==> #[trigger] all[k] == json_view(values@[k]),
            groups_view(grouped@) == grouped_upto(all, by, tags, i as nat),
        decreases values@.len() - i,
    {
        let group = &values[i];
        proof {
            lemma_grouped_distinct(all, by, tags, i as nat);
        }
        if group.is_object() {
            let id = id_from(group, group_by);
            let songs = group_songs_from(group, group_by, children_tags);
            let ghost before = groups_view(grouped@);
            let ghost added = songs@;
            match find_group(&grouped, &id) {
                Some(at) => {
                    let (name, mut old_songs) = grouped.remove(at);
                    let mut songs = songs;
                    let ghost merged = SongGroupView {
                        metadata: old_songs@.metadata + songs@.metadata,
                        paths: old_songs@.paths + songs@.paths,
                    };
                    proof {
                        assert(tag_maps(old_songs.metadata@ + songs.metadata@) =~= tag_maps(
                            old_songs.metadata@,
                        ) + tag_maps(songs.metadata@));
                        assert(texts(old_songs.paths@ + songs.paths@) =~= texts(old_songs.paths@)
                            + texts(songs.paths@));
                    }
                    old_songs.metadata.append(&mut songs.metadata);
                    old_songs.paths.append(&mut songs.paths);
                    assert(old_songs@ == merged);
                    grouped.insert(at, (name, old_songs));
                    assert(groups_view(grouped@) =~= before.update(at as int, (texts(id@), merged)));
                    assert(groups_view(grouped@) == add_group(before, texts(id@), added)) by {
                        let c = choose|c: int| 0 <= c < before.len() && before[c].0 == texts(id@);
                        assert(before[at as int].0 == texts(id@));
                        assert(c == at);
                    }
                },
                None => {
                    assert(groups_view(grouped@.push((id, songs))) =~= before.push((texts(id@), songs@)));
                    grouped.push((id, songs));
                },
            }
        }
        i += 1;
    }
    proof {
        lemma_grouped_distinct(all, by, tags, i as nat);
    }
    Ok(grouped)
}

/// The delta of a reply to a state request.
pub fn state_delta(reply: Json) -> (r: Result<MusingStateDelta, MusingError>)
    ensures
        match r {
            Ok(delta) => delta_of(reply@) == Ok::<MusingStateDeltaView, MusingErrorView>(delta@),
            Err(e) => delta_of(reply@) == Err::<MusingStateDeltaView, MusingErrorView>(e@),
        },
{
    MusingStateDelta::try_from(reply)
}

impl MusingRequestView {
    /// What is handed on for a reply to this request that is no error reply.
    /// A request that asks for data gives the data, or an error where the
    /// reply does not hold it; any other request gives nothing.
    pub open spec fn response(self, reply: JsonView) -> Option<MusingResponseView> {
        match self {
            MusingRequestView::Metadata(_, _) => Some(
                match metadata_of(reply) {
                    Some(rows) => MusingResponseView::Metadata(rows),
                    None => MusingResponseView::Error(MusingErrorView::NoMetadata.text()),
                },
            ),
            MusingRequestView::GroupedSongs(group_by, children_tags) => Some(
                match grouped_of(group_by, children_tags, reply) {
                    Some(groups) => MusingResponseView::GroupedSongs(groups),
                    None => MusingResponseView::Error(MusingErrorView::NoSongs.text()),
                },
            ),
            MusingRequestView::StateDelta => Some(
                match delta_of(reply) {
                    Ok(delta) => MusingResponseView::StateDelta(delta),
                    Err(e) => MusingResponseView::Error(e.text()),
                },
            ),
            MusingRequestView::Update => Some(
                match update_of(reply) {
                    Some(summary) => MusingResponseView::Update(summary),
                    None => MusingResponseView::Error(MusingErrorView::UpdateFailed.text()),
                },
            ),
            _ => None,
        }
    }
}

impl MusingRequest {
    /// What is handed on for a reply to this request that is no error reply.
    pub fn respond(&self, reply: Json) -> (r: Option<MusingResponse>)
        ensures
            match r {
                Some(response) => self@.response(reply@) == Some(response@),
                None => self@.response(reply@).is_none(),
            },
    {
        match self {
            MusingRequest::Metadata(_, _) => Some(
                match metadata(&reply) {
                    Ok(rows) => MusingResponse::Metadata(rows),
                    Err(e) => MusingResponse::Error(e.message()),
                },
            ),
            MusingRequest::GroupedSongs(group_by, children_tags) => Some(
                match grouped_songs(group_by, children_tags, &reply) {
                    Ok(groups) => MusingResponse::GroupedSongs(groups),
                    Err(e) => MusingResponse::Error(e.message()),
                },
            ),
            MusingRequest::StateDelta => Some(
                match state_delta(reply) {
                    Ok(delta) => MusingResponse::StateDelta(delta),
                    Err(e) => MusingResponse::Error(e.message()),
                },
            ),
            MusingRequest::Update => Some(
                match update(&reply) {
                    Ok(summary) => MusingResponse::Update(summary),
                    Err(e) => MusingResponse::Error(e.message()),
                },
            ),
            _ => None,
        }
    }
}

/// The requests of a list, each by its value.
pub open spec fn requests_view(requests: Seq<MusingRequest>) -> Seq<MusingRequestView> {
    requests.map_values(|r: MusingRequest| r@)
}

/// The client's end of the connection: the requests that wait, and the one
/// request that was written and whose reply has not come yet.
///
/// The server answers in the order in which requests arrive and says nothing
/// else about which reply belongs to which request, so a request is written
/// only when no other is under way.
#[derive(Debug)]
pub struct Connection {
    version: String,
    pending: Vec<MusingRequest>,
    waiting: Option<MusingRequest>,
    open: bool,
}

/// The mathematical value of a [`Connection`].
pub struct ConnectionView {
    /// What the server said of itself when the connection was made.
    pub version: Seq<char>,
    /// The requests that were handed over and not written yet, oldest first.
    pub pending: Seq<MusingRequestView>,
    /// The request that was written and not answered yet.
    pub waiting: Option<MusingRequestView>,
    /// Whether the connection still works.
    pub open: bool,
}

/// What is to be done next on the transport.
#[derive(Debug, PartialEq, Eq)]
pub enum Step {
    /// Nothing: no request waits, or a reply is awaited.
    Idle,
    /// These bytes are to be written, and then one reply is to be read.
    Write(Vec<u8>),
    /// Nothing is written: the request has no frame, and this is its answer.
    Reject(MusingResponse),
}

/// The mathematical value of a [`Step`].
pub enum StepView {
    Idle,
    Write(Seq<u8>),
    Reject(MusingResponseView),
}

impl View for Step {
    type V = StepView;

    open spec fn view(&self) -> StepView {
        match self {
            Step::Idle => StepView::Idle,
            Step::Write(bytes) => StepView::Write(bytes@),
            Step::Reject(response) => StepView::Reject(response@),
        }
    }
}

impl View for Connection {
    type V = ConnectionView;

    closed spec fn view(&self) -> ConnectionView {
        ConnectionView {
            version: self.version@,
            pending: requests_view(self.pending@),
            waiting: match self.waiting {
                Some(r) => Some(r@),
                None => None,
            },
            open: self.open,
        }
    }
}

impl ConnectionView {
    /// A fresh connection to a server of this version.
    pub open spec fn start(version: Seq<char>) -> ConnectionView {
        ConnectionView { version, pending: Seq::empty(), waiting: None, open: true }
    }

    /// After a request was handed over: it waits behind the others. A
    /// connection that no longer works takes nothing.
    pub open spec fn send(self, request: MusingRequestView) -> ConnectionView {
        if self.open {
            ConnectionView { pending: self.pending.push(request), ..self }
        } else {
            self
        }
    }

    /// Whether a request can be written now.
    pub open spec fn ready(self) -> bool {
        self.open && self.waiting is None && self.pending.len() > 0
    }

    /// The next step, and the connection after it. Only where no reply is
    /// awaited is the oldest request written.
    pub open spec fn next(self) -> (ConnectionView, StepView) {
        if !self.ready() {
            (self, StepView::Idle)
        } else {
            let request = self.pending[0];
            let payload = payload_of(request.json());
            if payload.len() <= u32::MAX {
                (
                    ConnectionView {
                        pending: self.pending.drop_first(),
                        waiting: Some(request),
                        ..self
                    },
                    StepView::Write(frame(payload)),
                )
            } else {
                (
                    ConnectionView { pending: self.pending.drop_first(), ..self },
                    StepView::Reject(MusingResponseView::Error(MusingErrorView::TooLong.text())),
                )
            }
        }
    }

    /// What the payload of a reply gives, and the connection after it.
    ///
    /// The reply belongs to the request under way, which is then done. An
    /// error reply of the server is handed on as an error. A payload that
    /// cannot be read ends the connection. Where no request is under way,
    /// the payload is dropped.
    pub open spec fn receive(self, payload: Seq<u8>) -> (
        ConnectionView,
        Result<Option<MusingResponseView>, MusingErrorView>,
    ) {
        match self.waiting {
            None => (self, Ok(None)),
            Some(request) => match message_of(payload) {
                Ok(reply) => (ConnectionView { waiting: None, ..self }, Ok(request.response(reply))),
                Err(e) => if e.fatal() {
                    (
                        ConnectionView {
                            pending: Seq::empty(),
                            waiting: None,
                            open: false,
                            ..self
                        },
                        Err(e),
                    )
                } else {
                    (
                        ConnectionView { waiting: None, ..self },
                        Ok(Some(MusingResponseView::Error(e.text()))),
                    )
                },
            },
        }
    }
}

/// Two requests handed over one after the other make two round trips, one
/// after the other: the first is written; while its reply is awaited nothing
/// is written; after its reply the second is written; and then again nothing
/// until the second reply.
pub proof fn law_half_duplex(
    c: ConnectionView,
    first: MusingRequestView,
    second: MusingRequestView,
    reply: Seq<u8>,
)
    requires
        c.open,
        c.waiting is None,
        c.pending.len() == 0,
    ensures
        ({
            let queued = c.send(first).send(second);
            let (written, step) = queued.next();
            let (answered, outcome) = written.receive(reply);
            payload_of(first.json()).len() <= u32::MAX ==> {
                &&& step == StepView::Write(frame(payload_of(first.json())))
                &&& written.waiting == Some(first)
                &&& written.next() == (written, StepView::Idle)
                &&& outcome is Ok ==> {
                    &&& answered.waiting is None
                    &&& payload_of(second.json()).len() <= u32::MAX ==> {
                        &&& answered.next().1 == StepView::Write(frame(payload_of(second.json())))
                        &&& answered.next().0.waiting == Some(second)
                        &&& answered.next().0.pending.len() == 0
                        &&& answered.next().0.next().1 == StepView::Idle
                    }
                }
            }
        }),
{
    let queued = c.send(first).send(second);
    assert(queued.pending =~= seq![first, second]);
    let (written, step) = queued.next();
    assert(queued.pending.drop_first() =~= seq![second]);
    let (answered, outcome) = written.receive(reply);
    if payload_of(first.json()).len() <= u32::MAX && outcome is Ok {
        assert(answered.pending =~= seq![second]);
        assert(answered.pending.drop_first() =~= Seq::empty());
    }
}

impl Connection {
    /// The connection, once the server has said its version: the payload of
    /// the first frame that it sends.
    pub fn try_new(version: Vec<u8>) -> (r: Result<Connection, MusingError>)
        ensures
            match r {
                Ok(c) => valid_utf8(version@) && c@ == ConnectionView::start(decode_utf8(version@)),
                Err(e) => !valid_utf8(version@) && e == MusingError::InvalidText,
            },
    {
        match text_of_bytes(version) {
            Some(version) => {
                let c = Connection { version, pending: Vec::new(), waiting: None, open: true };
                assert(requests_view(c.pending@) =~= Seq::empty());
                Ok(c)
            },
            None => Err(MusingError::InvalidText),
        }
    }

    /// What the server said of itself when the connection was made.
    pub fn version(&self) -> (r: &str)
        ensures
            r@ == self@.version,
    {
        self.version.as_str()
    }

    /// Whether the connection still works.
    pub fn is_open(&self) -> (r: bool)
        ensures
            r == self@.open,
    {
        self.open
    }

    /// Hands a request over. It is written when its turn comes.
    pub fn send(&mut self, request: MusingRequest)
        ensures
            final(self)@ == old(self)@.send(request@),
    {
        if self.open {
            assert(requests_view(self.pending@.push(request)) =~= requests_view(self.pending@).push(
                request@,
            ));
            self.pending.push(request);
        }
    }

    /// The next step on the transport.
    pub fn next(&mut self) -> (step: Step)
        ensures
            (final(self)@, step@) == old(self)@.next(),
    {
        if !self.open || self.waiting.is_some() || self.pending.len() == 0 {
            return Step::Idle;
        }
        assert(requests_view(self.pending@.remove(0)) =~= requests_view(self.pending@).drop_first());
        let request = self.pending.remove(0);
        match write_msg(&request.to_json()) {
            Ok(bytes) => {
                self.waiting = Some(request);
                Step::Write(bytes)
            },
            Err(e) => Step::Reject(MusingResponse::Error(e.message())),
        }
    }

    /// Takes the payload of the reply that was read.
    pub fn receive(&mut self, payload: Vec<u8>) -> (r: Result<Option<MusingResponse>, MusingError>)
        ensures
            final(self)@ == old(self)@.receive(payload@).0,
            match r {
                Ok(Some(response)) => old(self)@.receive(payload@).1 == Ok::<
                    Option<MusingResponseView>,
                    MusingErrorView,
                >(Some(response@)),
                Ok(None) => old(self)@.receive(payload@).1 == Ok::<
                    Option<MusingResponseView>,
                    MusingErrorView,
                >(None),
                Err(e) => old(self)@.receive(payload@).1 == Err::<
                    Option<MusingResponseView>,
                    MusingErrorView,
                >(e@),
            },
    {
        let request = match self.waiting.take() {
            Some(request) => request,
            None => {
                return Ok(None);
            },
        };
        match read_msg(payload) {
            Ok(reply) => Ok(request.respond(reply)),
            Err(e) => {
                if e.is_fatal() {
                    self.pending = Vec::new();
                    self.open = false;
                    assert(requests_view(self.pending@) =~= Seq::empty());
                    Err(e)
                } else {
                    Ok(Some(MusingResponse::Error(e.message())))
                }
            },
        }
    }
}

} // verus!
