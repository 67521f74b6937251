use vstd::prelude::*;

verus! {

/// One normalized comment or chat message.
#[derive(Clone, Debug)]
pub struct CommentItem {
    pub author: String,
    pub author_photo_url: Option<String>,
    pub text: String,
    pub runs: Option<Vec<CommentRun>>,
    pub like_count: Option<u64>,
    pub published_at: Option<String>,
    pub offset_ms: Option<u64>,
}

/// One fragment of a rich message: literal text or an emoji.
#[derive(Clone, Debug)]
pub struct CommentRun {
    pub text: Option<String>,
    pub emoji: Option<CommentEmoji>,
}

/// An emoji fragment's descriptor.
#[derive(Clone, Debug)]
pub struct CommentEmoji {
    pub id: Option<String>,
    pub url: Option<String>,
    pub label: Option<String>,
    pub is_custom: Option<bool>,
}

pub struct CommentEmojiV {
    pub id: Option<Seq<char>>,
    pub url: Option<Seq<char>>,
    pub label: Option<Seq<char>>,
    pub is_custom: Option<bool>,
}

pub struct CommentRunV {
    pub text: Option<Seq<char>>,
    pub emoji: Option<CommentEmojiV>,
}

pub struct CommentItemV {
    pub author: Seq<char>,
    pub author_photo_url: Option<Seq<char>>,
    pub text: Seq<char>,
    pub runs: Option<Seq<CommentRunV>>,
    pub like_count: Option<u64>,
    pub published_at: Option<Seq<char>>,
    pub offset_ms: Option<u64>,
}

impl DeepView for CommentEmoji {
    type V = CommentEmojiV;

    open spec fn deep_view(&self) -> CommentEmojiV {
        CommentEmojiV {
            id: self.id.deep_view(),
            url: self.url.deep_view(),
            label: self.label.deep_view(),
            is_custom: self.is_custom,
        }
    }
}

impl DeepView for CommentRun {
    type V = CommentRunV;

    open spec fn deep_view(&self) -> CommentRunV {
        CommentRunV { text: self.text.deep_view(), emoji: self.emoji.deep_view() }
    }
}

impl DeepView for CommentItem {
    type V = CommentItemV;

    open spec fn deep_view(&self) -> CommentItemV {
        CommentItemV {
            author: self.author@,
            author_photo_url: self.author_photo_url.deep_view(),
            text: self.text@,
            runs: self.runs.deep_view(),
            like_count: self.like_count,
            published_at: self.published_at.deep_view(),
            offset_ms: self.offset_ms,
        }
    }
}

/// The structured record kept beside each archived item.
#[derive(Clone, Debug)]
pub struct VideoMetadata {
    pub id: Option<String>,
    pub title: Option<String>,
    pub channel: Option<String>,
    pub thumbnail: Option<String>,
    pub url: Option<String>,
    pub webpage_url: Option<String>,
    pub duration_sec: Option<u64>,
    pub upload_date: Option<String>,
    pub release_timestamp: Option<i64>,
    pub timestamp: Option<i64>,
    pub live_status: Option<String>,
    pub is_live: Option<bool>,
    pub was_live: Option<bool>,
    pub view_count: Option<u64>,
    pub like_count: Option<u64>,
    pub comment_count: Option<u64>,
    pub tags: Option<Vec<String>>,
    pub categories: Option<Vec<String>>,
    pub description: Option<String>,
    pub channel_id: Option<String>,
    pub uploader_id: Option<String>,
    pub channel_url: Option<String>,
    pub uploader_url: Option<String>,
    pub availability: Option<String>,
    pub language: Option<String>,
    pub audio_language: Option<String>,
    pub age_limit: Option<u64>,
}

pub struct VideoMetadataV {
    pub id: Option<Seq<char>>,
    pub title: Option<Seq<char>>,
    pub channel: Option<Seq<char>>,
    pub thumbnail: Option<Seq<char>>,
    pub url: Option<Seq<char>>,
    pub webpage_url: Option<Seq<char>>,
    pub duration_sec: Option<u64>,
    pub upload_date: Option<Seq<char>>,
    pub release_timestamp: Option<i64>,
    pub timestamp: Option<i64>,
    pub live_status: Option<Seq<char>>,
    pub is_live: Option<bool>,
    pub was_live: Option<bool>,
    pub view_count: Option<u64>,
    pub like_count: Option<u64>,
    pub comment_count: Option<u64>,
    pub tags: Option<Seq<Seq<char>>>,
    pub categories: Option<Seq<Seq<char>>>,
    pub description: Option<Seq<char>>,
    pub channel_id: Option<Seq<char>>,
    pub uploader_id: Option<Seq<char>>,
    pub channel_url: Option<Seq<char>>,
    pub uploader_url: Option<Seq<char>>,
    pub availability: Option<Seq<char>>,
    pub language: Option<Seq<char>>,
    pub audio_language: Option<Seq<char>>,
    pub age_limit: Option<u64>,
}

impl DeepView for VideoMetadata {
    type V = VideoMetadataV;

    open spec fn deep_view(&self) -> VideoMetadataV {
        VideoMetadataV {
            id: self.id.deep_view(),
            title: self.title.deep_view(),
            channel: self.channel.deep_view(),
            thumbnail: self.thumbnail.deep_view(),
            url: self.url.deep_view(),
            webpage_url: self.webpage_url.deep_view(),
            duration_sec: self.duration_sec,
            upload_date: self.upload_date.deep_view(),
            release_timestamp: self.release_timestamp,
            timestamp: self.timestamp,
            live_status: self.live_status.deep_view(),
            is_live: self.is_live,
            was_live: self.was_live,
            view_count: self.view_count,
            like_count: self.like_count,
            comment_count: self.comment_count,
            tags: self.tags.deep_view(),
            categories: self.categories.deep_view(),
            description: self.description.deep_view(),
            channel_id: self.channel_id.deep_view(),
            uploader_id: self.uploader_id.deep_view(),
            channel_url: self.channel_url.deep_view(),
            uploader_url: self.uploader_url.deep_view(),
            availability: self.availability.deep_view(),
            language: self.language.deep_view(),
            audio_language: self.audio_language.deep_view(),
            age_limit: self.age_limit,
        }
    }
}

/// One entry of a channel's listing.
#[derive(Clone, Debug)]
pub struct ChannelVideoItem {
    pub id: String,
    pub title: String,
    pub channel: Option<String>,
    pub url: String,
    pub thumbnail: Option<String>,
    pub webpage_url: Option<String>,
    pub duration_sec: Option<u64>,
    pub upload_date: Option<String>,
    pub release_timestamp: Option<i64>,
    pub timestamp: Option<i64>,
    pub live_status: Option<String>,
    pub is_live: Option<bool>,
    pub was_live: Option<bool>,
    pub view_count: Option<u64>,
    pub like_count: Option<u64>,
    pub comment_count: Option<u64>,
    pub tags: Option<Vec<String>>,
    pub categories: Option<Vec<String>>,
    pub description: Option<String>,
    pub channel_id: Option<String>,
    pub uploader_id: Option<String>,
    pub channel_url: Option<String>,
    pub uploader_url: Option<String>,
    pub availability: Option<String>,
    pub language: Option<String>,
    pub audio_language: Option<String>,
    pub age_limit: Option<u64>,
}

pub struct ChannelVideoItemV {
    pub id: Seq<char>,
    pub title: Seq<char>,
    pub channel: Option<Seq<char>>,
    pub url: Seq<char>,
    pub thumbnail: Option<Seq<char>>,
    pub webpage_url: Option<Seq<char>>,
    pub duration_sec: Option<u64>,
    pub upload_date: Option<Seq<char>>,
    pub release_timestamp: Option<i64>,
    pub timestamp: Option<i64>,
    pub live_status: Option<Seq<char>>,
    pub is_live: Option<bool>,
    pub was_live: Option<bool>,
    pub view_count: Option<u64>,
    pub like_count: Option<u64>,
    pub comment_count: Option<u64>,
    pub tags: Option<Seq<Seq<char>>>,
    pub categories: Option<Seq<Seq<char>>>,
    pub description: Option<Seq<char>>,
    pub channel_id: Option<Seq<char>>,
    pub uploader_id: Option<Seq<char>>,
    pub channel_url: Option<Seq<char>>,
    pub uploader_url: Option<Seq<char>>,
    pub availability: Option<Seq<char>>,
    pub language: Option<Seq<char>>,
    pub audio_language: Option<Seq<char>>,
    pub age_limit: Option<u64>,
}

impl DeepView for ChannelVideoItem {
    type V = ChannelVideoItemV;

    open spec fn deep_view(&self) -> ChannelVideoItemV {
        ChannelVideoItemV {
            id: self.id@,
            title: self.title@,
            channel: self.channel.deep_view(),
            url: self.url@,
            thumbnail: self.thumbnail.deep_view(),
            webpage_url: self.webpage_url.deep_view(),
            duration_sec: self.duration_sec,
            upload_date: self.upload_date.deep_view(),
            release_timestamp: self.release_timestamp,
            timestamp: self.timestamp,
            live_status: self.live_status.deep_view(),
            is_live: self.is_live,
            was_live: self.was_live,
            view_count: self.view_count,
            like_count: self.like_count,
            comment_count: self.comment_count,
            tags: self.tags.deep_view(),
            categories: self.categories.deep_view(),
            description: self.description.deep_view(),
            channel_id: self.channel_id.deep_view(),
            uploader_id: self.uploader_id.deep_view(),
            channel_url: self.channel_url.deep_view(),
            uploader_url: self.uploader_url.deep_view(),
            availability: self.availability.deep_view(),
            language: self.language.deep_view(),
            audio_language: self.audio_language.deep_view(),
            age_limit: self.age_limit,
        }
    }
}

/// Which ids the metadata and comment files on disk mention.
#[derive(Clone, Debug)]
pub struct MetadataIndex {
    pub info_ids: Vec<String>,
    pub chat_ids: Vec<String>,
}

/// A metadata record found for one requested id.
#[derive(Clone, Debug)]
pub struct LocalMetadataItem {
    pub id: String,
    pub metadata: VideoMetadata,
}

pub struct LocalMetadataItemV {
    pub id: Seq<char>,
    pub metadata: VideoMetadataV,
}

impl DeepView for LocalMetadataItem {
    type V = LocalMetadataItemV;

    open spec fn deep_view(&self) -> LocalMetadataItemV {
        LocalMetadataItemV { id: self.id@, metadata: self.metadata.deep_view() }
    }
}

/// One row of a batch health check request.
#[derive(Clone, Debug)]
pub struct LocalFileCheckItem {
    pub id: String,
    pub title: String,
    pub check_video: bool,
    pub check_comments: bool,
}

/// One row of a batch health check answer.
#[derive(Clone, Debug)]
pub struct LocalFileCheckResult {
    pub id: String,
    pub video_ok: bool,
    pub comments_ok: bool,
}

pub struct LocalFileCheckItemV {
    pub id: Seq<char>,
    pub title: Seq<char>,
    pub check_video: bool,
    pub check_comments: bool,
}

pub struct LocalFileCheckResultV {
    pub id: Seq<char>,
    pub video_ok: bool,
    pub comments_ok: bool,
}

impl DeepView for LocalFileCheckItem {
    type V = LocalFileCheckItemV;

    open spec fn deep_view(&self) -> LocalFileCheckItemV {
        LocalFileCheckItemV {
            id: self.id@,
            title: self.title@,
            check_video: self.check_video,
            check_comments: self.check_comments,
        }
    }
}

impl DeepView for LocalFileCheckResult {
    type V = LocalFileCheckResultV;

    open spec fn deep_view(&self) -> LocalFileCheckResultV {
        LocalFileCheckResultV { id: self.id@, video_ok: self.video_ok, comments_ok: self.comments_ok }
    }
}

/// The terminal report of a video download.
#[derive(Clone, Debug)]
pub struct DownloadFinished {
    pub id: String,
    pub success: bool,
    pub stdout: String,
    pub stderr: String,
    pub cancelled: bool,
    pub is_private: bool,
    pub is_deleted: bool,
}

/// The terminal report of a comment fetch.
#[derive(Clone, Debug)]
pub struct CommentsFinished {
    pub id: String,
    pub success: bool,
    pub stdout: String,
    pub stderr: String,
    pub metadata: Option<VideoMetadata>,
    pub has_live_chat: Option<bool>,
}

/// The terminal report of a metadata fetch.
#[derive(Clone, Debug)]
pub struct MetadataFinished {
    pub id: String,
    pub success: bool,
    pub stdout: String,
    pub stderr: String,
    pub metadata: Option<VideoMetadata>,
    pub has_live_chat: Option<bool>,
    pub is_private: bool,
    pub is_deleted: bool,
}

/// A remembered window geometry.
#[derive(Clone, Copy, Debug)]
pub struct WindowSizeConfig {
    pub width: u32,
    pub height: u32,
    pub x: Option<i32>,
    pub y: Option<i32>,
}

/// The last written main-window geometry, kept to avoid redundant writes.
#[derive(Default)]
pub struct WindowSizeState {
    pub last_saved: Option<(u32, u32)>,
    pub last_position: Option<(i32, i32)>,
}

/// The last written player-window geometry.
#[derive(Default)]
pub struct PlayerWindowSizeState {
    pub last_saved: Option<(u32, u32)>,
    pub last_position: Option<(i32, i32)>,
}

/// A request queued for a player window that is still opening.
#[derive(Clone, Debug)]
pub struct PendingPlayerOpen {
    pub id: String,
    pub file_path: Option<String>,
}

/// The persisted application settings.
#[derive(Clone, Debug, Default)]
pub struct PersistedSettings {
    pub download_dir: Option<String>,
    pub cookies_file: Option<String>,
    pub cookies_source: Option<String>,
    pub cookies_browser: Option<String>,
    pub remote_components: Option<String>,
    pub yt_dlp_path: Option<String>,
    pub ffmpeg_path: Option<String>,
    pub ffprobe_path: Option<String>,
    pub download_quality: Option<String>,
}

/// The settings file's envelope: a schema version around the data.
#[derive(Clone, Debug)]
pub struct VersionedSettings {
    pub version: u32,
    pub data: PersistedSettings,
}

/// Whether one external tool answered a version probe, and where it was found.
#[derive(Clone, Debug)]
pub struct ToolingCheckStatus {
    pub ok: bool,
    pub path: String,
}

/// The three external tools' probe results.
#[derive(Clone, Debug)]
pub struct ToolingCheckResult {
    pub yt_dlp: ToolingCheckStatus,
    pub ffmpeg: ToolingCheckStatus,
    pub ffprobe: ToolingCheckStatus,
}

} // verus!
