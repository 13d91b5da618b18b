//! The tags and pictures that a file carries, as far as the player reads
//! them.

use vstd::prelude::*;

verus! {

/// The standard meaning of a tag.
#[derive(Clone, Copy, Debug, PartialEq, Eq, Structural)]
pub enum TagKey {
    TrackTitle,
    Artist,
    /// Any other standard meaning.
    Other,
}

/// The value of a tag.
#[derive(Clone, Debug)]
pub enum TagValue {
    Text(String),
    /// A value that is not text.
    Other,
}

/// A tag.
#[derive(Clone, Debug)]
pub struct MetadataTag {
    pub std_key: Option<TagKey>,
    pub value: TagValue,
}

/// What a picture shows.
#[derive(Clone, Copy, Debug, PartialEq, Eq, Structural)]
pub enum VisualKey {
    FrontCover,
    /// Any other use.
    Other,
}

/// A picture.
#[derive(Clone, Debug)]
pub struct MetadataVisual {
    pub usage: Option<VisualKey>,
    pub media_type: String,
    pub data: Vec<u8>,
}

/// One revision of the metadata of a file.
#[derive(Clone, Debug)]
pub struct TrackMetadata {
    pub tags: Vec<MetadataTag>,
    pub visuals: Vec<MetadataVisual>,
}

/// The mathematical value of a tag's value.
pub enum TagValueView {
    Text(Seq<char>),
    Other,
}

/// The mathematical value of a tag.
pub struct MetadataTagView {
    pub std_key: Option<TagKey>,
    pub value: TagValueView,
}

/// The mathematical value of a picture.
pub struct MetadataVisualView {
    pub usage: Option<VisualKey>,
    pub media_type: Seq<char>,
    pub data: Seq<u8>,
}

/// The mathematical value of a revision.
pub struct TrackMetadataView {
    pub tags: Seq<MetadataTagView>,
    pub visuals: Seq<MetadataVisualView>,
}

impl View for TagValue {
    type V = TagValueView;

    open spec fn view(&self) -> TagValueView {
        match self {
            TagValue::Text(text) => TagValueView::Text(text@),
            TagValue::Other => TagValueView::Other,
        }
    }
}

impl View for MetadataTag {
    type V = MetadataTagView;

    open spec fn view(&self) -> MetadataTagView {
        MetadataTagView { std_key: self.std_key, value: self.value@ }
    }
}

impl View for MetadataVisual {
    type V = MetadataVisualView;

    open spec fn view(&self) -> MetadataVisualView {
        MetadataVisualView { usage: self.usage, media_type: self.media_type@, data: self.data@ }
    }
}

impl View for TrackMetadata {
    type V = TrackMetadataView;

    open spec fn view(&self) -> TrackMetadataView {
        TrackMetadataView {
            tags: Seq::new(self.tags@.len(), |i: int| self.tags@[i]@),
            visuals: Seq::new(self.visuals@.len(), |i: int| self.visuals@[i]@),
        }
    }
}

/// The first of `tags` whose standard meaning is `key`.
pub open spec fn first_tag(tags: Seq<MetadataTagView>, key: TagKey) -> Option<MetadataTagView>
    decreases tags.len(),
{
    if tags.len() == 0 {
        None
    } else if tags[0].std_key == Some(key) {
        Some(tags[0])
    } else {
        first_tag(tags.drop_first(), key)
    }
}

/// The text of the first of `tags` whose standard meaning is `key`; `None`
/// where there is no such tag or its value is not text.
pub open spec fn tag_text(tags: Seq<MetadataTagView>, key: TagKey) -> Option<Seq<char>> {
    match first_tag(tags, key) {
        Some(tag) => match tag.value {
            TagValueView::Text(text) => Some(text),
            TagValueView::Other => None,
        },
        None => None,
    }
}

/// The first of `visuals` that is used as `usage`.
pub open spec fn first_visual(visuals: Seq<MetadataVisualView>, usage: VisualKey) -> Option<
    MetadataVisualView,
>
    decreases visuals.len(),
{
    if visuals.len() == 0 {
        None
    } else if visuals[0].usage == Some(usage) {
        Some(visuals[0])
    } else {
        first_visual(visuals.drop_first(), usage)
    }
}

impl TrackMetadata {
    /// The text of the first tag whose standard meaning is `key`.
    pub fn text_of(&self, key: TagKey) -> (text: Option<String>)
        ensures
            match text {
                Some(found) => tag_text(self@.tags, key) == Some(found@),
                None => tag_text(self@.tags, key) is None,
            },
    {
        let mut i: usize = 0;
        assert(self@.tags.skip(0) =~= self@.tags);
        while i < self.tags.len()
            invariant
                i <= self.tags@.len(),
                first_tag(self@.tags, key) == first_tag(self@.tags.skip(i as int), key),
            decreases self.tags@.len() - i,
        {
            let ghost rest = self@.tags.skip(i as int);
            assert(rest[0] == self@.tags[i as int]);
            assert(rest.drop_first() =~= self@.tags.skip(i + 1));
            let tag = &self.tags[i];
            let matches = match tag.std_key {
                Some(found) => found == key,
                None => false,
            };
            if matches {
                return match &tag.value {
                    TagValue::Text(text) => Some(text.clone()),
                    TagValue::Other => None,
                };
            }
            i += 1;
        }
        assert(self@.tags.skip(i as int).len() == 0);
        None
    }

    /// The title of the track.
    pub fn track_title(&self) -> (title: Option<String>)
        ensures
            match title {
                Some(found) => tag_text(self@.tags, TagKey::TrackTitle) == Some(found@),
                None => tag_text(self@.tags, TagKey::TrackTitle) is None,
            },
    {
        self.text_of(TagKey::TrackTitle)
    }

    /// The artist of the track.
    pub fn artist(&self) -> (artist: Option<String>)
        ensures
            match artist {
                Some(found) => tag_text(self@.tags, TagKey::Artist) == Some(found@),
                None => tag_text(self@.tags, TagKey::Artist) is None,
            },
    {
        self.text_of(TagKey::Artist)
    }

    /// The first picture that is used as front cover.
    pub fn front_cover(&self) -> (cover: Option<&MetadataVisual>)
        ensures
            match cover {
                Some(found) => first_visual(self@.visuals, VisualKey::FrontCover) == Some(found@),
                None => first_visual(self@.visuals, VisualKey::FrontCover) is None,
            },
    {
        let mut i: usize = 0;
        assert(self@.visuals.skip(0) =~= self@.visuals);
        while i < self.visuals.len()
            invariant
                i <= self.visuals@.len(),
                first_visual(self@.visuals, VisualKey::FrontCover) == first_visual(
                    self@.visuals.skip(i as int),
                    VisualKey::FrontCover,
                ),
            decreases self.visuals@.len() - i,
        {
            let ghost rest = self@.visuals.skip(i as int);
            assert(rest[0] == self@.visuals[i as int]);
            assert(rest.drop_first() =~= self@.visuals.skip(i + 1));
            let visual = &self.visuals[i];
            let matches = match visual.usage {
                Some(found) => found == VisualKey::FrontCover,
                None => false,
            };
            if matches {
                return Some(visual);
            }
            i += 1;
        }
        assert(self@.visuals.skip(i as int).len() == 0);
        None
    }
}

} // verus!
