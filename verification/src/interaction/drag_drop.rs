//! Drag and drop: the data a drag carries, and the drop zones that can
//! receive it.
//!
//! The library never looks inside a zone's bounds; `B` is whatever
//! geometry the renderer uses.

use vstd::prelude::*;
use crate::interaction::ElementId;
use crate::text::same_text;

verus! {

/// The payload of drag data.
#[derive(Debug, Clone)]
pub enum DragPayload {
    /// Text
    String(String),
    /// An index (for list reordering)
    Index(usize),
    /// Several indices (for multi-select)
    Indices(Vec<usize>),
    /// Custom data as a JSON string
    Json(String),
}

/// Data transferred by drag and drop: a type name (such as "list-item")
/// and a payload.
#[derive(Debug, Clone)]
pub struct DragData {
    /// Type identifier for the drag data
    pub data_type: String,
    payload: DragPayload,
}

impl DragData {
    /// The payload.
    pub closed spec fn payload(&self) -> DragPayload {
        self.payload
    }

    /// The type identifier.
    pub closed spec fn kind(&self) -> Seq<char> {
        self.data_type@
    }

    /// Drag data with a text payload.
    pub fn string(data_type: &str, value: &str) -> (d: Self)
        ensures
            d.kind() == data_type@,
            d.payload() matches DragPayload::String(s) && s@ == value@,
    {
        DragData { data_type: data_type.to_owned(), payload: DragPayload::String(value.to_owned()) }
    }

    /// Drag data with an index payload.
    pub fn index(data_type: &str, index: usize) -> (d: Self)
        ensures
            d.kind() == data_type@,
            d.payload() == DragPayload::Index(index),
    {
        DragData { data_type: data_type.to_owned(), payload: DragPayload::Index(index) }
    }

    /// Drag data with several indices.
    pub fn indices(data_type: &str, indices: Vec<usize>) -> (d: Self)
        ensures
            d.kind() == data_type@,
            d.payload() matches DragPayload::Indices(v) && v@ == indices@,
    {
        DragData { data_type: data_type.to_owned(), payload: DragPayload::Indices(indices) }
    }

    /// Drag data with a JSON payload.
    pub fn json(data_type: &str, json: &str) -> (d: Self)
        ensures
            d.kind() == data_type@,
            d.payload() matches DragPayload::Json(s) && s@ == json@,
    {
        DragData { data_type: data_type.to_owned(), payload: DragPayload::Json(json.to_owned()) }
    }

    /// The text payload, if the payload is text.
    pub fn as_string(&self) -> (r: Option<&str>)
        ensures
            r is Some <==> self.payload() is String,
            r matches Some(s) ==> (self.payload() matches DragPayload::String(p) && s@ == p@),
    {
        match &self.payload {
            DragPayload::String(s) => Some(s.as_str()),
            _ => None,
        }
    }

    /// The index payload, if the payload is an index.
    pub fn as_index(&self) -> (r: Option<usize>)
        ensures
            r is Some <==> self.payload() is Index,
            r matches Some(i) ==> self.payload() == DragPayload::Index(i),
    {
        match &self.payload {
            DragPayload::Index(i) => Some(*i),
            _ => None,
        }
    }

    /// The indices payload, if the payload is a list of indices.
    pub fn as_indices(&self) -> (r: Option<&[usize]>)
        ensures
            r is Some <==> self.payload() is Indices,
            r matches Some(s) ==> (self.payload() matches DragPayload::Indices(v) && s@ == v@),
    {
        match &self.payload {
            DragPayload::Indices(v) => Some(v.as_slice()),
            _ => None,
        }
    }

    /// The JSON payload, if the payload is JSON.
    pub fn as_json(&self) -> (r: Option<&str>)
        ensures
            r is Some <==> self.payload() is Json,
            r matches Some(s) ==> (self.payload() matches DragPayload::Json(p) && s@ == p@),
    {
        match &self.payload {
            DragPayload::Json(s) => Some(s.as_str()),
            _ => None,
        }
    }
}

/// A place where dragged data can be dropped.
#[derive(Debug, Clone)]
pub struct DropZone<B> {
    /// The zone's element
    pub element_id: ElementId,
    /// The zone's bounds
    pub bounds: B,
    /// The data types the zone accepts; none listed means any
    pub accepted_types: Vec<String>,
    /// Whether the zone inserts into a list (for reordering)
    pub is_insert_zone: bool,
    /// Where in the list a drop inserts
    pub insert_index: Option<usize>,
}

/// The texts of `types`.
pub open spec fn type_names(types: Seq<String>) -> Seq<Seq<char>> {
    types.map_values(|t: String| t@)
}

/// Whether a zone accepting `types` takes data of type `data_type`.
pub open spec fn accepts_type(types: Seq<String>, data_type: Seq<char>) -> bool {
    types.len() == 0 || type_names(types).contains(data_type)
}

impl<B> DropZone<B> {
    /// A zone accepting any data type, not an insert zone.
    pub fn new(element_id: ElementId, bounds: B) -> (z: Self)
        ensures
            z.element_id == element_id,
            z.bounds == bounds,
            z.accepted_types@.len() == 0,
            !z.is_insert_zone,
            z.insert_index is None,
    {
        DropZone { element_id, bounds, accepted_types: Vec::new(), is_insert_zone: false, insert_index: None }
    }

    /// Also accept data of type `data_type`.
    pub fn accept(self, data_type: &str) -> (z: Self)
        ensures
            type_names(z.accepted_types@) == type_names(self.accepted_types@).push(data_type@),
            z.element_id == self.element_id,
            z.bounds == self.bounds,
            z.is_insert_zone == self.is_insert_zone,
            z.insert_index == self.insert_index,
    {
        let mut z = self;
        let ghost before = z.accepted_types@;
        z.accepted_types.push(data_type.to_owned());
        assert(type_names(z.accepted_types@) =~= type_names(before).push(data_type@));
        z
    }

    /// Make this an insert zone inserting at `index`.
    pub fn insert_zone(self, index: usize) -> (z: Self)
        ensures
            z.is_insert_zone,
            z.insert_index == Some(index),
            z.element_id == self.element_id,
            z.bounds == self.bounds,
            z.accepted_types == self.accepted_types,
    {
        DropZone { is_insert_zone: true, insert_index: Some(index), ..self }
    }

    /// Whether the zone takes data of type `data_type`: any type when it
    /// lists none, else the listed ones.
    pub fn accepts(&self, data_type: &str) -> (r: bool)
        ensures
            r == accepts_type(self.accepted_types@, data_type@),
    {
        let n = self.accepted_types.len();
        if n == 0 {
            return true;
        }
        let mut i: usize = 0;
        while i < n
            invariant
                n == self.accepted_types@.len(),
                i <= n,
                forall|j: int| 0 <= j < i ==> #[trigger] self.accepted_types@[j]@ != data_type@,
            decreases n - i,
        {
            if same_text(self.accepted_types[i].as_str(), data_type) {
                assert(type_names(self.accepted_types@)[i as int] == data_type@);
                return true;
            }
            i = i + 1;
        }
        assert(!type_names(self.accepted_types@).contains(data_type@)) by {
            if type_names(self.accepted_types@).contains(data_type@) {
                let j = choose|j: int| 0 <= j < n && type_names(self.accepted_types@)[j] == data_type@;
                assert(self.accepted_types@[j]@ == data_type@);
            }
        }
        false
    }
}

/// The drop zones of the current frame, in registration order (later ones
/// are on top).
pub struct DropZoneRegistry<B> {
    zones: Vec<DropZone<B>>,
}

impl<B> DropZoneRegistry<B> {
    /// The zones, in registration order.
    pub closed spec fn registered(&self) -> Seq<DropZone<B>> {
        self.zones@
    }

    /// No zones.
    pub fn new() -> (r: Self)
        ensures
            r.registered() == Seq::<DropZone<B>>::empty(),
    {
        DropZoneRegistry { zones: Vec::new() }
    }

    /// Register `zone` for this frame.
    pub fn register(&mut self, zone: DropZone<B>)
        ensures
            final(self).registered() == old(self).registered().push(zone),
    {
        self.zones.push(zone);
    }

    /// Forget all zones (at the start of a frame).
    pub fn clear(&mut self)
        ensures
            final(self).registered() == Seq::<DropZone<B>>::empty(),
    {
        self.zones.clear();
    }

    /// The topmost zone that contains the pointer, by `contains`, and takes
    /// data of type `data_type`.
    pub fn find_at(&self, data_type: &str, contains: impl Fn(&B) -> bool) -> (r: Option<&DropZone<B>>)
        requires
            forall|b: &B| #[trigger] contains.requires((b,)),
        ensures
            r matches Some(z) ==> exists|i: int| {
                &&& 0 <= i < self.registered().len()
                &&& *z == self.registered()[i]
                &&& accepts_type(z.accepted_types@, data_type@)
                &&& contains.ensures((&self.registered()[i].bounds,), true)
                &&& forall|j: int| i < j < self.registered().len() ==> !accepts_type(#[trigger] self.registered()[j].accepted_types@, data_type@)
                    || contains.ensures((&self.registered()[j].bounds,), false)
            },
            r is None ==> forall|j: int| 0 <= j < self.registered().len() ==> !accepts_type(#[trigger] self.registered()[j].accepted_types@, data_type@)
                || contains.ensures((&self.registered()[j].bounds,), false),
    {
        let mut i = self.zones.len();
        while i > 0
            invariant
                i <= self.zones@.len(),
                forall|b: &B| #[trigger] contains.requires((b,)),
                forall|j: int| i <= j < self.zones@.len() ==> !accepts_type(#[trigger] self.zones@[j].accepted_types@, data_type@)
                    || contains.ensures((&self.zones@[j].bounds,), false),
            decreases i,
        {
            let zone = &self.zones[i - 1];
            if zone.accepts(data_type) {
                let inside = contains(&zone.bounds);
                if inside {
                    return Some(zone);
                }
            }
            i = i - 1;
        }
        None
    }

    /// The zones, in registration order.
    pub fn zones(&self) -> (r: &[DropZone<B>])
        ensures
            r@ == self.registered(),
    {
        self.zones.as_slice()
    }
}

} // verus!
