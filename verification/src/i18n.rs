//! The typed translation catalog: the interface language, how it is
//! chosen, and the English and Simplified Chinese copy of every message.

use crate::text::{ascii_lower, chars_of, char_ascii_lower, find_char, first_index, is_blank, trim_chars, trim_spec, all_whitespace};
use vstd::prelude::*;

verus! {

/// The language the user asked for; `System` follows the locale.
#[derive(Debug, Clone, Copy, PartialEq, Eq, Structural)]
pub enum LanguagePreference {
    System,
    English,
    SimplifiedChinese,
}

impl Default for LanguagePreference {
    fn default() -> (preference: LanguagePreference)
        ensures
            preference == LanguagePreference::System,
    {
        LanguagePreference::System
    }
}

/// A language the interface is written in.
#[derive(Debug, Clone, Copy, PartialEq, Eq, Structural)]
pub enum Language {
    English,
    SimplifiedChinese,
}

impl LanguagePreference {
    /// The interface language: the explicit choice, or the language of the
    /// system locale (`system`) for `System`.
    pub fn resolve(self, system: Language) -> (language: Language)
        ensures
            language == (match self {
                LanguagePreference::System => system,
                LanguagePreference::English => Language::English,
                LanguagePreference::SimplifiedChinese => Language::SimplifiedChinese,
            }),
    {
        match self {
            LanguagePreference::System => system,
            LanguagePreference::English => Language::English,
            LanguagePreference::SimplifiedChinese => Language::SimplifiedChinese,
        }
    }
}

/// The first entry of a colon-separated fallback list (GNU `LANGUAGE`).
pub open spec fn primary_locale(locale: Seq<char>) -> Seq<char> {
    match first_index(locale, ':') {
        Some(i) => locale.take(i),
        None => locale,
    }
}

/// `_` written as `-`.
pub open spec fn dash_for_underscore(c: char) -> char {
    if c == '_' {
        '-'
    } else {
        c
    }
}

/// The primary locale, trimmed, in ASCII lowercase, with `-` separators.
pub open spec fn normalized_locale(locale: Seq<char>) -> Seq<char> {
    let t = trim_spec(primary_locale(locale), false);
    Seq::new(t.len(), |i: int| dash_for_underscore(ascii_lower(t[i])))
}

/// A Chinese locale: `zh`, or `zh-` followed by a region or script.
pub open spec fn is_chinese_locale(locale: Seq<char>) -> bool {
    let n = normalized_locale(locale);
    n == seq!['z', 'h'] || (n.len() >= 3 && n[0] == 'z' && n[1] == 'h' && n[2] == '-')
}

/// The language a locale string selects: Simplified Chinese for Chinese
/// locales, English otherwise.
pub open spec fn locale_language(locale: Seq<char>) -> Language {
    if is_chinese_locale(locale) {
        Language::SimplifiedChinese
    } else {
        Language::English
    }
}

pub fn language_from_locale(locale: &str) -> (language: Language)
    ensures
        language == locale_language(locale@),
{
    let chars = chars_of(locale);
    let end = match find_char(chars.as_slice(), ':') {
        Some(i) => i,
        None => chars.len(),
    };
    let mut primary: Vec<char> = Vec::new();
    let mut i: usize = 0;
    while i < end
        invariant
            end <= chars@.len(),
            i <= end,
            primary@ == chars@.take(i as int),
        decreases end - i,
    {
        primary.push(chars[i]);
        assert(chars@.take(i + 1) == chars@.take(i as int).push(chars@[i as int]));
        i = i + 1;
    }
    assert(primary@ == primary_locale(locale@));
    let t = trim_chars(primary.as_slice(), false);
    let ghost n = normalized_locale(locale@);
    let len = t.len();
    assert(n.len() == len);
    if len < 2 {
        return Language::English;
    }
    let c0 = dash(char_ascii_lower(t[0]));
    let c1 = dash(char_ascii_lower(t[1]));
    assert(c0 == n[0] && c1 == n[1]);
    if c0 != 'z' || c1 != 'h' {
        return Language::English;
    }
    if len == 2 {
        assert(n =~= seq!['z', 'h']);
        return Language::SimplifiedChinese;
    }
    let c2 = dash(char_ascii_lower(t[2]));
    assert(c2 == n[2]);
    if c2 == '-' {
        Language::SimplifiedChinese
    } else {
        assert(n != seq!['z', 'h']);
        Language::English
    }
}

fn dash(c: char) -> (d: char)
    ensures
        d == dash_for_underscore(c),
{
    if c == '_' {
        '-'
    } else {
        c
    }
}

/// The first locale value that is set and not blank, in the order the
/// environment is consulted.
pub open spec fn first_locale(values: Seq<Option<String>>) -> Option<Seq<char>>
    decreases values.len(),
{
    if values.len() == 0 {
        None
    } else {
        match values[0] {
            Some(v) if !is_blank(v@) => Some(v@),
            _ => first_locale(values.drop_first()),
        }
    }
}

/// The system language from the locale variables (`LC_ALL`,
/// `LC_MESSAGES`, `LANGUAGE`, `LANG`, in that order, unset ones as
/// `None`): the language of the first non-blank value, English if none.
pub fn language_from_environment(values: &[Option<String>]) -> (language: Language)
    ensures
        language == (match first_locale(values@) {
            Some(locale) => locale_language(locale),
            None => Language::English,
        }),
{
    let mut i: usize = 0;
    assert(values@.subrange(0, values@.len() as int) =~= values@);
    while i < values.len()
        invariant
            i <= values@.len(),
            first_locale(values@) == first_locale(values@.subrange(i as int, values@.len() as int)),
        decreases values@.len() - i,
    {
        let ghost rest = values@.subrange(i as int, values@.len() as int);
        assert(rest.drop_first() == values@.subrange(i + 1, values@.len() as int));
        match &values[i] {
            Some(v) => {
                let chars = chars_of(v.as_str());
                if !all_whitespace(chars.as_slice()) {
                    return language_from_locale(v.as_str());
                }
            },
            None => {},
        }
        i = i + 1;
    }
    Language::English
}

/// A message of the interface.
#[derive(Debug, Clone, Copy, PartialEq, Eq, Structural)]
pub enum Key {
    AppSubtitle,
    YourSpace,
    Now,
    Library,
    Favorites,
    Playlists,
    Lyrics,
    VisualStage,
    Collection,
    LocalTracks,
    FavoriteTracks,
    Scanning,
    Search,
    AddFile,
    AddFolder,
    Settings,
    ImmersiveListening,
    SoundInMotion,
    EmptyHomeDescription,
    AddMusicFolder,
    LibraryCard,
    VisualCard,
    EngineCard,
    LocalArchive,
    SystemDecode,
    LocalLibrary,
    Tracks,
    EmptyLibrary,
    Title,
    Artist,
    Album,
    Duration,
    VisualDescription,
    VisualFootnote,
    VisualPreview,
    VisualControls,
    VisualPresets,
    Composition,
    ResponseTuning,
    SceneLayers,
    Material,
    Placement,
    Appearance,
    MotionAndAudio,
    Live,
    Listening,
    WaitingForAudio,
    Loudness,
    Pitch,
    Centroid,
    Onset,
    Intensity,
    Motion,
    Depth,
    Glow,
    Atmosphere,
    AtmosphereEnabled,
    CompositionVisible,
    MaterialField,
    NoMaterial,
    Watercolor,
    Caustics,
    TextureScale,
    FieldMotion,
    NewVariation,
    LightSources,
    LightSource,
    AddLight,
    RemoveLight,
    Palette,
    FollowPreset,
    CustomColor,
    SourceShape,
    Circle,
    Oval,
    Beam,
    AspectRatio,
    Rotation,
    Falloff,
    Diffuse,
    Focused,
    Halo,
    Horizontal,
    Vertical,
    Radius,
    Strength,
    Hue,
    Saturation,
    Drift,
    AudioResponse,
    NoResponse,
    Energy,
    Bass,
    Midrange,
    Treble,
    ScaleResponse,
    StrengthResponse,
    AtmosphereHint,
    SettingsDescription,
    DefaultVolume,
    Language,
    FollowSystem,
    English,
    SimplifiedChinese,
    ConfigFile,
    StateFile,
    FavoritesFile,
    CatalogFile,
    MusicFolders,
    NoMusicFolder,
    SupportedFormats,
    UpNext,
    Queue,
    EmptyQueue,
    NothingPlaying,
    AddLocalTrack,
    Volume,
    PlaybackMode,
    Sequential,
    RepeatOne,
    Shuffle,
    NoLyrics,
    LyricsSidecarHint,
    ReloadLyrics,
    LyricsLoadFailed,
    RestorePersistence,
    PlaybackFailed,
    SavePersistenceFailed,
    UnsupportedFile,
    InvalidFilePath,
    InvalidFolder,
    InvalidFolderPath,
    AddedTracks,
    ScanSummary,
    Favorited,
    Unfavorited,
    NewPlaylist,
    CreatePlaylist,
    ListView,
    CoverView,
    AddCurrentTrack,
    RemoveFromPlaylist,
    MoveUp,
    MoveDown,
    DeletePlaylist,
    ConfirmDeletePlaylist,
    NoPlaylists,
    MissingTrack,
}

/// The English copy of each message.
pub open spec fn english_text(key: Key) -> Seq<char> {
    match key {
        Key::AppSubtitle => "LOCAL AUDIO SPACE"@,
        Key::YourSpace => "YOUR SPACE"@,
        Key::Now => "Now playing"@,
        Key::Library => "Library"@,
        Key::Favorites => "Favorites"@,
        Key::Playlists => "Playlists"@,
        Key::Lyrics => "Lyrics"@,
        Key::VisualStage => "Visual stage"@,
        Key::Collection => "COLLECTION"@,
        Key::LocalTracks => "local tracks"@,
        Key::FavoriteTracks => "favorites"@,
        Key::Scanning => "Reading media metadata…"@,
        Key::Search => "Search music"@,
        Key::AddFile => "Add music file"@,
        Key::AddFolder => "Add music folder"@,
        Key::Settings => "Settings"@,
        Key::ImmersiveListening => "IMMERSIVE LOCAL LISTENING"@,
        Key::SoundInMotion => "Your sound, in motion."@,
        Key::EmptyHomeDescription => "Add a local music folder to begin building your private listening space."@,
        Key::AddMusicFolder => "+ Add music folder"@,
        Key::LibraryCard => "LIBRARY"@,
        Key::VisualCard => "VISUAL"@,
        Key::EngineCard => "ENGINE"@,
        Key::LocalArchive => "Your local sound archive"@,
        Key::SystemDecode => "Built-in decoding · native output"@,
        Key::LocalLibrary => "Local library"@,
        Key::Tracks => "TRACKS"@,
        Key::EmptyLibrary => "No playable tracks yet. Add a music folder to get started."@,
        Key::Title => "Title"@,
        Key::Artist => "Artist"@,
        Key::Album => "Album"@,
        Key::Duration => "Time"@,
        Key::VisualDescription => "Six independent compositions turn frequency, pitch, loudness and transients into motion."@,
        Key::VisualFootnote => "Driven by 32-band PCM analysis, bass/mid/treble, dBFS loudness, pitch, centroid and onset."@,
        Key::VisualPreview => "AUDIO-REACTIVE STAGE"@,
        Key::VisualControls => "Visual controls"@,
        Key::VisualPresets => "Compositions"@,
        Key::Composition => "Composition"@,
        Key::ResponseTuning => "Composition response"@,
        Key::SceneLayers => "Scene layers"@,
        Key::Material => "Material"@,
        Key::Placement => "Placement and size"@,
        Key::Appearance => "Appearance"@,
        Key::MotionAndAudio => "Motion and audio"@,
        Key::Live => "LIVE"@,
        Key::Listening => "Listening to decoded PCM"@,
        Key::WaitingForAudio => "Play a track to wake the stage"@,
        Key::Loudness => "Loudness"@,
        Key::Pitch => "Pitch"@,
        Key::Centroid => "Centroid"@,
        Key::Onset => "Onset"@,
        Key::Intensity => "Response"@,
        Key::Motion => "Motion"@,
        Key::Depth => "Depth"@,
        Key::Glow => "Glow"@,
        Key::Atmosphere => "Atmosphere"@,
        Key::AtmosphereEnabled => "Atmosphere enabled"@,
        Key::CompositionVisible => "Composition visible"@,
        Key::MaterialField => "Material field"@,
        Key::NoMaterial => "None"@,
        Key::Watercolor => "Watercolour diffusion"@,
        Key::Caustics => "Water caustics"@,
        Key::TextureScale => "Material scale"@,
        Key::FieldMotion => "Material drift"@,
        Key::NewVariation => "New material variation"@,
        Key::LightSources => "Light sources"@,
        Key::LightSource => "Light"@,
        Key::AddLight => "+ Add light"@,
        Key::RemoveLight => "Remove light"@,
        Key::Palette => "Colour source"@,
        Key::FollowPreset => "Follow composition"@,
        Key::CustomColor => "Custom colour"@,
        Key::SourceShape => "Source shape"@,
        Key::Circle => "Circle"@,
        Key::Oval => "Oval area light"@,
        Key::Beam => "Directional beam"@,
        Key::AspectRatio => "Elongation"@,
        Key::Rotation => "Direction"@,
        Key::Falloff => "Falloff"@,
        Key::Diffuse => "Diffuse"@,
        Key::Focused => "Focused"@,
        Key::Halo => "Halo"@,
        Key::Horizontal => "Horizontal position"@,
        Key::Vertical => "Vertical position"@,
        Key::Radius => "Radius"@,
        Key::Strength => "Strength"@,
        Key::Hue => "Hue"@,
        Key::Saturation => "Saturation"@,
        Key::Drift => "Independent drift"@,
        Key::AudioResponse => "Audio response"@,
        Key::NoResponse => "Off"@,
        Key::Energy => "Energy"@,
        Key::Bass => "Bass"@,
        Key::Midrange => "Midrange"@,
        Key::Treble => "Treble"@,
        Key::ScaleResponse => "Audio size"@,
        Key::StrengthResponse => "Audio brightness"@,
        Key::AtmosphereHint => "Positions may extend beyond the window; only the light tail remains visible."@,
        Key::SettingsDescription => "Playback and visual preferences are stored locally."@,
        Key::DefaultVolume => "Default volume"@,
        Key::Language => "Language"@,
        Key::FollowSystem => "Follow system"@,
        Key::English => "English"@,
        Key::SimplifiedChinese => "简体中文"@,
        Key::ConfigFile => "Configuration"@,
        Key::StateFile => "Session state"@,
        Key::FavoritesFile => "Favorites data"@,
        Key::CatalogFile => "Music catalog"@,
        Key::MusicFolders => "Music folders"@,
        Key::NoMusicFolder => "None added"@,
        Key::SupportedFormats => "Built-in: FLAC · MP3 · M4A/AAC · Ogg Vorbis · WAV"@,
        Key::UpNext => "Up next"@,
        Key::Queue => "QUEUE"@,
        Key::EmptyQueue => "The queue is empty"@,
        Key::NothingPlaying => "Nothing playing"@,
        Key::AddLocalTrack => "Add a local track to begin"@,
        Key::Volume => "VOLUME"@,
        Key::PlaybackMode => "PLAYBACK MODE"@,
        Key::Sequential => "Sequential"@,
        Key::RepeatOne => "Repeat one"@,
        Key::Shuffle => "Shuffle"@,
        Key::NoLyrics => "No synchronized lyrics for this track"@,
        Key::LyricsSidecarHint => "Add a .wlyric.json sidecar next to the audio file."@,
        Key::ReloadLyrics => "Reload lyrics"@,
        Key::LyricsLoadFailed => "Could not load lyrics"@,
        Key::RestorePersistence => "Stored data recovered; invalid file(s) saved at"@,
        Key::PlaybackFailed => "Playback failed"@,
        Key::SavePersistenceFailed => "Could not save local data"@,
        Key::UnsupportedFile => "That file format is not supported"@,
        Key::InvalidFilePath => "The selected file path could not be read"@,
        Key::InvalidFolder => "The selected location is not a folder"@,
        Key::InvalidFolderPath => "The selected folder path could not be read"@,
        Key::AddedTracks => "tracks added"@,
        Key::ScanSummary => "files could not be decoded and were skipped"@,
        Key::Favorited => "Added to favorites"@,
        Key::Unfavorited => "Removed from favorites"@,
        Key::NewPlaylist => "New playlist name"@,
        Key::CreatePlaylist => "Create"@,
        Key::ListView => "List"@,
        Key::CoverView => "Covers"@,
        Key::AddCurrentTrack => "Add playing track"@,
        Key::RemoveFromPlaylist => "Remove"@,
        Key::MoveUp => "Move up"@,
        Key::MoveDown => "Move down"@,
        Key::DeletePlaylist => "Delete playlist"@,
        Key::ConfirmDeletePlaylist => "Select Delete playlist again to confirm"@,
        Key::NoPlaylists => "Create a playlist to organize your local music."@,
        Key::MissingTrack => "Missing file"@,
    }
}

/// The Simplified Chinese copy of each message.
pub open spec fn chinese_text(key: Key) -> Seq<char> {
    match key {
        Key::AppSubtitle => "本地声场"@,
        Key::YourSpace => "你的空间"@,
        Key::Now => "此刻"@,
        Key::Library => "音乐库"@,
        Key::Favorites => "我喜欢"@,
        Key::Playlists => "歌单"@,
        Key::Lyrics => "歌词"@,
        Key::VisualStage => "视觉舞台"@,
        Key::Collection => "收藏概览"@,
        Key::LocalTracks => "首本地曲目"@,
        Key::FavoriteTracks => "首已收藏"@,
        Key::Scanning => "正在读取媒体信息…"@,
        Key::Search => "搜索音乐"@,
        Key::AddFile => "添加音乐文件"@,
        Key::AddFolder => "添加音乐文件夹"@,
        Key::Settings => "设置"@,
        Key::ImmersiveListening => "沉浸式本地聆听"@,
        Key::SoundInMotion => "让声音，流动起来。"@,
        Key::EmptyHomeDescription => "添加本地音乐文件夹，开始构建只属于你的聆听空间。"@,
        Key::AddMusicFolder => "＋ 添加音乐文件夹"@,
        Key::LibraryCard => "音乐库"@,
        Key::VisualCard => "视觉"@,
        Key::EngineCard => "引擎"@,
        Key::LocalArchive => "你的本地声音档案"@,
        Key::SystemDecode => "内置解码 · 原生输出"@,
        Key::LocalLibrary => "本地音乐库"@,
        Key::Tracks => "首曲目"@,
        Key::EmptyLibrary => "还没有可播放的曲目。添加音乐文件夹即可开始。"@,
        Key::Title => "标题"@,
        Key::Artist => "艺人"@,
        Key::Album => "专辑"@,
        Key::Duration => "时长"@,
        Key::VisualDescription => "六种独立构图，把频率、音高、响度和瞬态变成不同的空间运动。"@,
        Key::VisualFootnote => "由 32 段 PCM 频谱、低中高频、dBFS 响度、音高、频谱质心与瞬态共同驱动。"@,
        Key::VisualPreview => "音频响应舞台"@,
        Key::VisualControls => "视觉控制"@,
        Key::VisualPresets => "构图预设"@,
        Key::Composition => "构图"@,
        Key::ResponseTuning => "构图响应"@,
        Key::SceneLayers => "场景图层"@,
        Key::Material => "材质"@,
        Key::Placement => "位置与尺寸"@,
        Key::Appearance => "外观"@,
        Key::MotionAndAudio => "运动与音频"@,
        Key::Live => "实时"@,
        Key::Listening => "正在解析 PCM 音频"@,
        Key::WaitingForAudio => "播放音乐，唤醒舞台"@,
        Key::Loudness => "响度"@,
        Key::Pitch => "音高"@,
        Key::Centroid => "频谱质心"@,
        Key::Onset => "瞬态"@,
        Key::Intensity => "响应强度"@,
        Key::Motion => "运动速率"@,
        Key::Depth => "空间纵深"@,
        Key::Glow => "辉光"@,
        Key::Atmosphere => "氛围层"@,
        Key::AtmosphereEnabled => "启用氛围层"@,
        Key::CompositionVisible => "显示主体构图"@,
        Key::MaterialField => "氛围材质"@,
        Key::NoMaterial => "无"@,
        Key::Watercolor => "水彩浸染"@,
        Key::Caustics => "水面焦散"@,
        Key::TextureScale => "材质尺度"@,
        Key::FieldMotion => "材质漂移"@,
        Key::NewVariation => "生成新的材质变化"@,
        Key::LightSources => "光源"@,
        Key::LightSource => "光源"@,
        Key::AddLight => "＋ 添加光源"@,
        Key::RemoveLight => "移除光源"@,
        Key::Palette => "颜色来源"@,
        Key::FollowPreset => "跟随构图配色"@,
        Key::CustomColor => "自定义颜色"@,
        Key::SourceShape => "光源形状"@,
        Key::Circle => "圆形"@,
        Key::Oval => "椭圆面积光"@,
        Key::Beam => "方向光束"@,
        Key::AspectRatio => "拉伸比例"@,
        Key::Rotation => "光源方向"@,
        Key::Falloff => "晕开样式"@,
        Key::Diffuse => "扩散"@,
        Key::Focused => "聚焦"@,
        Key::Halo => "光环"@,
        Key::Horizontal => "水平位置"@,
        Key::Vertical => "垂直位置"@,
        Key::Radius => "光晕半径"@,
        Key::Strength => "光源强度"@,
        Key::Hue => "色相"@,
        Key::Saturation => "饱和度"@,
        Key::Drift => "独立漂移"@,
        Key::AudioResponse => "音频响应"@,
        Key::NoResponse => "关闭"@,
        Key::Energy => "整体能量"@,
        Key::Bass => "低频"@,
        Key::Midrange => "中频"@,
        Key::Treble => "高频"@,
        Key::ScaleResponse => "音频尺寸响应"@,
        Key::StrengthResponse => "音频亮度响应"@,
        Key::AtmosphereHint => "位置可以超出窗口边界，只让光晕尾部进入画面。"@,
        Key::SettingsDescription => "播放与视觉偏好只保存在本机。"@,
        Key::DefaultVolume => "默认音量"@,
        Key::Language => "语言"@,
        Key::FollowSystem => "跟随系统"@,
        Key::English => "English"@,
        Key::SimplifiedChinese => "简体中文"@,
        Key::ConfigFile => "配置文件"@,
        Key::StateFile => "会话状态"@,
        Key::FavoritesFile => "收藏数据"@,
        Key::CatalogFile => "音乐目录数据库"@,
        Key::MusicFolders => "音乐文件夹"@,
        Key::NoMusicFolder => "尚未添加"@,
        Key::SupportedFormats => "内置支持：FLAC · MP3 · M4A/AAC · Ogg Vorbis · WAV"@,
        Key::UpNext => "接下来播放"@,
        Key::Queue => "队列"@,
        Key::EmptyQueue => "队列为空"@,
        Key::NothingPlaying => "没有正在播放的音乐"@,
        Key::AddLocalTrack => "添加本地曲目开始"@,
        Key::Volume => "音量"@,
        Key::PlaybackMode => "播放模式"@,
        Key::Sequential => "顺序播放"@,
        Key::RepeatOne => "单曲重复"@,
        Key::Shuffle => "随机播放"@,
        Key::NoLyrics => "当前曲目没有同步歌词"@,
        Key::LyricsSidecarHint => "在音频文件旁添加 .wlyric.json 歌词文件。"@,
        Key::ReloadLyrics => "重新载入歌词"@,
        Key::LyricsLoadFailed => "歌词载入失败"@,
        Key::RestorePersistence => "本地数据已恢复，损坏文件保存在"@,
        Key::PlaybackFailed => "播放失败"@,
        Key::SavePersistenceFailed => "保存本地数据失败"@,
        Key::UnsupportedFile => "暂不支持所选文件格式"@,
        Key::InvalidFilePath => "无法读取所选文件路径"@,
        Key::InvalidFolder => "所选位置不是文件夹"@,
        Key::InvalidFolderPath => "无法读取所选文件夹路径"@,
        Key::AddedTracks => "首曲目已加入"@,
        Key::ScanSummary => "个文件无法解码，已跳过"@,
        Key::Favorited => "已收藏"@,
        Key::Unfavorited => "已取消收藏"@,
        Key::NewPlaylist => "新歌单名称"@,
        Key::CreatePlaylist => "创建"@,
        Key::ListView => "列表"@,
        Key::CoverView => "封面"@,
        Key::AddCurrentTrack => "加入正在播放的曲目"@,
        Key::RemoveFromPlaylist => "移除"@,
        Key::MoveUp => "上移"@,
        Key::MoveDown => "下移"@,
        Key::DeletePlaylist => "删除歌单"@,
        Key::ConfirmDeletePlaylist => "再次选择“删除歌单”以确认"@,
        Key::NoPlaylists => "创建一个歌单，整理你的本地音乐。"@,
        Key::MissingTrack => "文件已丢失"@,
    }
}

/// The copy of `key` in `language`.
pub open spec fn text_spec(language: Language, key: Key) -> Seq<char> {
    match language {
        Language::English => english_text(key),
        Language::SimplifiedChinese => chinese_text(key),
    }
}

pub fn text(language: Language, key: Key) -> (copy: &'static str)
    ensures
        copy@ == text_spec(language, key),
{
    match language {
        Language::English => english(key),
        Language::SimplifiedChinese => chinese(key),
    }
}

fn english(key: Key) -> (copy: &'static str)
    ensures
        copy@ == english_text(key),
{
    match key {
        Key::AppSubtitle => "LOCAL AUDIO SPACE",
        Key::YourSpace => "YOUR SPACE",
        Key::Now => "Now playing",
        Key::Library => "Library",
        Key::Favorites => "Favorites",
        Key::Playlists => "Playlists",
        Key::Lyrics => "Lyrics",
        Key::VisualStage => "Visual stage",
        Key::Collection => "COLLECTION",
        Key::LocalTracks => "local tracks",
        Key::FavoriteTracks => "favorites",
        Key::Scanning => "Reading media metadata…",
        Key::Search => "Search music",
        Key::AddFile => "Add music file",
        Key::AddFolder => "Add music folder",
        Key::Settings => "Settings",
        Key::ImmersiveListening => "IMMERSIVE LOCAL LISTENING",
        Key::SoundInMotion => "Your sound, in motion.",
        Key::EmptyHomeDescription => "Add a local music folder to begin building your private listening space.",
        Key::AddMusicFolder => "+ Add music folder",
        Key::LibraryCard => "LIBRARY",
        Key::VisualCard => "VISUAL",
        Key::EngineCard => "ENGINE",
        Key::LocalArchive => "Your local sound archive",
        Key::SystemDecode => "Built-in decoding · native output",
        Key::LocalLibrary => "Local library",
        Key::Tracks => "TRACKS",
        Key::EmptyLibrary => "No playable tracks yet. Add a music folder to get started.",
        Key::Title => "Title",
        Key::Artist => "Artist",
        Key::Album => "Album",
        Key::Duration => "Time",
        Key::VisualDescription => "Six independent compositions turn frequency, pitch, loudness and transients into motion.",
        Key::VisualFootnote => "Driven by 32-band PCM analysis, bass/mid/treble, dBFS loudness, pitch, centroid and onset.",
        Key::VisualPreview => "AUDIO-REACTIVE STAGE",
        Key::VisualControls => "Visual controls",
        Key::VisualPresets => "Compositions",
        Key::Composition => "Composition",
        Key::ResponseTuning => "Composition response",
        Key::SceneLayers => "Scene layers",
        Key::Material => "Material",
        Key::Placement => "Placement and size",
        Key::Appearance => "Appearance",
        Key::MotionAndAudio => "Motion and audio",
        Key::Live => "LIVE",
        Key::Listening => "Listening to decoded PCM",
        Key::WaitingForAudio => "Play a track to wake the stage",
        Key::Loudness => "Loudness",
        Key::Pitch => "Pitch",
        Key::Centroid => "Centroid",
        Key::Onset => "Onset",
        Key::Intensity => "Response",
        Key::Motion => "Motion",
        Key::Depth => "Depth",
        Key::Glow => "Glow",
        Key::Atmosphere => "Atmosphere",
        Key::AtmosphereEnabled => "Atmosphere enabled",
        Key::CompositionVisible => "Composition visible",
        Key::MaterialField => "Material field",
        Key::NoMaterial => "None",
        Key::Watercolor => "Watercolour diffusion",
        Key::Caustics => "Water caustics",
        Key::TextureScale => "Material scale",
        Key::FieldMotion => "Material drift",
        Key::NewVariation => "New material variation",
        Key::LightSources => "Light sources",
        Key::LightSource => "Light",
        Key::AddLight => "+ Add light",
        Key::RemoveLight => "Remove light",
        Key::Palette => "Colour source",
        Key::FollowPreset => "Follow composition",
        Key::CustomColor => "Custom colour",
        Key::SourceShape => "Source shape",
        Key::Circle => "Circle",
        Key::Oval => "Oval area light",
        Key::Beam => "Directional beam",
        Key::AspectRatio => "Elongation",
        Key::Rotation => "Direction",
        Key::Falloff => "Falloff",
        Key::Diffuse => "Diffuse",
        Key::Focused => "Focused",
        Key::Halo => "Halo",
        Key::Horizontal => "Horizontal position",
        Key::Vertical => "Vertical position",
        Key::Radius => "Radius",
        Key::Strength => "Strength",
        Key::Hue => "Hue",
        Key::Saturation => "Saturation",
        Key::Drift => "Independent drift",
        Key::AudioResponse => "Audio response",
        Key::NoResponse => "Off",
        Key::Energy => "Energy",
        Key::Bass => "Bass",
        Key::Midrange => "Midrange",
        Key::Treble => "Treble",
        Key::ScaleResponse => "Audio size",
        Key::StrengthResponse => "Audio brightness",
        Key::AtmosphereHint => "Positions may extend beyond the window; only the light tail remains visible.",
        Key::SettingsDescription => "Playback and visual preferences are stored locally.",
        Key::DefaultVolume => "Default volume",
        Key::Language => "Language",
        Key::FollowSystem => "Follow system",
        Key::English => "English",
        Key::SimplifiedChinese => "简体中文",
        Key::ConfigFile => "Configuration",
        Key::StateFile => "Session state",
        Key::FavoritesFile => "Favorites data",
        Key::CatalogFile => "Music catalog",
        Key::MusicFolders => "Music folders",
        Key::NoMusicFolder => "None added",
        Key::SupportedFormats => "Built-in: FLAC · MP3 · M4A/AAC · Ogg Vorbis · WAV",
        Key::UpNext => "Up next",
        Key::Queue => "QUEUE",
        Key::EmptyQueue => "The queue is empty",
        Key::NothingPlaying => "Nothing playing",
        Key::AddLocalTrack => "Add a local track to begin",
        Key::Volume => "VOLUME",
        Key::PlaybackMode => "PLAYBACK MODE",
        Key::Sequential => "Sequential",
        Key::RepeatOne => "Repeat one",
        Key::Shuffle => "Shuffle",
        Key::NoLyrics => "No synchronized lyrics for this track",
        Key::LyricsSidecarHint => "Add a .wlyric.json sidecar next to the audio file.",
        Key::ReloadLyrics => "Reload lyrics",
        Key::LyricsLoadFailed => "Could not load lyrics",
        Key::RestorePersistence => "Stored data recovered; invalid file(s) saved at",
        Key::PlaybackFailed => "Playback failed",
        Key::SavePersistenceFailed => "Could not save local data",
        Key::UnsupportedFile => "That file format is not supported",
        Key::InvalidFilePath => "The selected file path could not be read",
        Key::InvalidFolder => "The selected location is not a folder",
        Key::InvalidFolderPath => "The selected folder path could not be read",
        Key::AddedTracks => "tracks added",
        Key::ScanSummary => "files could not be decoded and were skipped",
        Key::Favorited => "Added to favorites",
        Key::Unfavorited => "Removed from favorites",
        Key::NewPlaylist => "New playlist name",
        Key::CreatePlaylist => "Create",
        Key::ListView => "List",
        Key::CoverView => "Covers",
        Key::AddCurrentTrack => "Add playing track",
        Key::RemoveFromPlaylist => "Remove",
        Key::MoveUp => "Move up",
        Key::MoveDown => "Move down",
        Key::DeletePlaylist => "Delete playlist",
        Key::ConfirmDeletePlaylist => "Select Delete playlist again to confirm",
        Key::NoPlaylists => "Create a playlist to organize your local music.",
        Key::MissingTrack => "Missing file",
    }
}

fn chinese(key: Key) -> (copy: &'static str)
    ensures
        copy@ == chinese_text(key),
{
    match key {
        Key::AppSubtitle => "本地声场",
        Key::YourSpace => "你的空间",
        Key::Now => "此刻",
        Key::Library => "音乐库",
        Key::Favorites => "我喜欢",
        Key::Playlists => "歌单",
        Key::Lyrics => "歌词",
        Key::VisualStage => "视觉舞台",
        Key::Collection => "收藏概览",
        Key::LocalTracks => "首本地曲目",
        Key::FavoriteTracks => "首已收藏",
        Key::Scanning => "正在读取媒体信息…",
        Key::Search => "搜索音乐",
        Key::AddFile => "添加音乐文件",
        Key::AddFolder => "添加音乐文件夹",
        Key::Settings => "设置",
        Key::ImmersiveListening => "沉浸式本地聆听",
        Key::SoundInMotion => "让声音，流动起来。",
        Key::EmptyHomeDescription => "添加本地音乐文件夹，开始构建只属于你的聆听空间。",
        Key::AddMusicFolder => "＋ 添加音乐文件夹",
        Key::LibraryCard => "音乐库",
        Key::VisualCard => "视觉",
        Key::EngineCard => "引擎",
        Key::LocalArchive => "你的本地声音档案",
        Key::SystemDecode => "内置解码 · 原生输出",
        Key::LocalLibrary => "本地音乐库",
        Key::Tracks => "首曲目",
        Key::EmptyLibrary => "还没有可播放的曲目。添加音乐文件夹即可开始。",
        Key::Title => "标题",
        Key::Artist => "艺人",
        Key::Album => "专辑",
        Key::Duration => "时长",
        Key::VisualDescription => "六种独立构图，把频率、音高、响度和瞬态变成不同的空间运动。",
        Key::VisualFootnote => "由 32 段 PCM 频谱、低中高频、dBFS 响度、音高、频谱质心与瞬态共同驱动。",
        Key::VisualPreview => "音频响应舞台",
        Key::VisualControls => "视觉控制",
        Key::VisualPresets => "构图预设",
        Key::Composition => "构图",
        Key::ResponseTuning => "构图响应",
        Key::SceneLayers => "场景图层",
        Key::Material => "材质",
        Key::Placement => "位置与尺寸",
        Key::Appearance => "外观",
        Key::MotionAndAudio => "运动与音频",
        Key::Live => "实时",
        Key::Listening => "正在解析 PCM 音频",
        Key::WaitingForAudio => "播放音乐，唤醒舞台",
        Key::Loudness => "响度",
        Key::Pitch => "音高",
        Key::Centroid => "频谱质心",
        Key::Onset => "瞬态",
        Key::Intensity => "响应强度",
        Key::Motion => "运动速率",
        Key::Depth => "空间纵深",
        Key::Glow => "辉光",
        Key::Atmosphere => "氛围层",
        Key::AtmosphereEnabled => "启用氛围层",
        Key::CompositionVisible => "显示主体构图",
        Key::MaterialField => "氛围材质",
        Key::NoMaterial => "无",
        Key::Watercolor => "水彩浸染",
        Key::Caustics => "水面焦散",
        Key::TextureScale => "材质尺度",
        Key::FieldMotion => "材质漂移",
        Key::NewVariation => "生成新的材质变化",
        Key::LightSources => "光源",
        Key::LightSource => "光源",
        Key::AddLight => "＋ 添加光源",
        Key::RemoveLight => "移除光源",
        Key::Palette => "颜色来源",
        Key::FollowPreset => "跟随构图配色",
        Key::CustomColor => "自定义颜色",
        Key::SourceShape => "光源形状",
        Key::Circle => "圆形",
        Key::Oval => "椭圆面积光",
        Key::Beam => "方向光束",
        Key::AspectRatio => "拉伸比例",
        Key::Rotation => "光源方向",
        Key::Falloff => "晕开样式",
        Key::Diffuse => "扩散",
        Key::Focused => "聚焦",
        Key::Halo => "光环",
        Key::Horizontal => "水平位置",
        Key::Vertical => "垂直位置",
        Key::Radius => "光晕半径",
        Key::Strength => "光源强度",
        Key::Hue => "色相",
        Key::Saturation => "饱和度",
        Key::Drift => "独立漂移",
        Key::AudioResponse => "音频响应",
        Key::NoResponse => "关闭",
        Key::Energy => "整体能量",
        Key::Bass => "低频",
        Key::Midrange => "中频",
        Key::Treble => "高频",
        Key::ScaleResponse => "音频尺寸响应",
        Key::StrengthResponse => "音频亮度响应",
        Key::AtmosphereHint => "位置可以超出窗口边界，只让光晕尾部进入画面。",
        Key::SettingsDescription => "播放与视觉偏好只保存在本机。",
        Key::DefaultVolume => "默认音量",
        Key::Language => "语言",
        Key::FollowSystem => "跟随系统",
        Key::English => "English",
        Key::SimplifiedChinese => "简体中文",
        Key::ConfigFile => "配置文件",
        Key::StateFile => "会话状态",
        Key::FavoritesFile => "收藏数据",
        Key::CatalogFile => "音乐目录数据库",
        Key::MusicFolders => "音乐文件夹",
        Key::NoMusicFolder => "尚未添加",
        Key::SupportedFormats => "内置支持：FLAC · MP3 · M4A/AAC · Ogg Vorbis · WAV",
        Key::UpNext => "接下来播放",
        Key::Queue => "队列",
        Key::EmptyQueue => "队列为空",
        Key::NothingPlaying => "没有正在播放的音乐",
        Key::AddLocalTrack => "添加本地曲目开始",
        Key::Volume => "音量",
        Key::PlaybackMode => "播放模式",
        Key::Sequential => "顺序播放",
        Key::RepeatOne => "单曲重复",
        Key::Shuffle => "随机播放",
        Key::NoLyrics => "当前曲目没有同步歌词",
        Key::LyricsSidecarHint => "在音频文件旁添加 .wlyric.json 歌词文件。",
        Key::ReloadLyrics => "重新载入歌词",
        Key::LyricsLoadFailed => "歌词载入失败",
        Key::RestorePersistence => "本地数据已恢复，损坏文件保存在",
        Key::PlaybackFailed => "播放失败",
        Key::SavePersistenceFailed => "保存本地数据失败",
        Key::UnsupportedFile => "暂不支持所选文件格式",
        Key::InvalidFilePath => "无法读取所选文件路径",
        Key::InvalidFolder => "所选位置不是文件夹",
        Key::InvalidFolderPath => "无法读取所选文件夹路径",
        Key::AddedTracks => "首曲目已加入",
        Key::ScanSummary => "个文件无法解码，已跳过",
        Key::Favorited => "已收藏",
        Key::Unfavorited => "已取消收藏",
        Key::NewPlaylist => "新歌单名称",
        Key::CreatePlaylist => "创建",
        Key::ListView => "列表",
        Key::CoverView => "封面",
        Key::AddCurrentTrack => "加入正在播放的曲目",
        Key::RemoveFromPlaylist => "移除",
        Key::MoveUp => "上移",
        Key::MoveDown => "下移",
        Key::DeletePlaylist => "删除歌单",
        Key::ConfirmDeletePlaylist => "再次选择“删除歌单”以确认",
        Key::NoPlaylists => "创建一个歌单，整理你的本地音乐。",
        Key::MissingTrack => "文件已丢失",
    }
}

/// Localized display copy for a built-in visual composition.
///
/// Visual rendering stays language-neutral; the copy lives here so that
/// switching languages never leaves a half-translated preset row behind.
#[derive(Debug, Clone, Copy, PartialEq, Eq)]
pub struct VisualPresetText {
    pub name: &'static str,
    pub subtitle: &'static str,
    pub response: &'static str,
}

/// The name of built-in effect `index` (indices past the last effect name
/// the last).
pub open spec fn preset_name(language: Language, index: usize) -> Seq<char> {
    match language {
        Language::English => if index == 0 {
            "Particle Veil"@
        } else if index == 1 {
            "Pulse Tunnel"@
        } else if index == 2 {
            "Orbital Core"@
        } else if index == 3 {
            "Spectral Void"@
        } else if index == 4 {
            "Vinyl Halo"@
        } else if index == 5 {
            "Star River"@
        } else if index == 6 {
            "Prism Ribbons"@
        } else if index == 7 {
            "Luminous Bloom"@
        } else if index == 8 {
            "Ripple Field"@
        } else if index == 9 {
            "Particle Terrain"@
        } else {
            "Cover Relief"@
        },
        Language::SimplifiedChinese => if index == 0 {
            "粒子帷幕"@
        } else if index == 1 {
            "脉冲隧道"@
        } else if index == 2 {
            "轨道核心"@
        } else if index == 3 {
            "频谱虚空"@
        } else if index == 4 {
            "黑胶光环"@
        } else if index == 5 {
            "星河"@
        } else if index == 6 {
            "棱镜丝带"@
        } else if index == 7 {
            "流光绽放"@
        } else if index == 8 {
            "涟漪场"@
        } else if index == 9 {
            "粒子地形"@
        } else {
            "封面浮雕"@
        },
    }
}

/// The subtitle of built-in effect `index`.
pub open spec fn preset_subtitle(language: Language, index: usize) -> Seq<char> {
    match language {
        Language::English => if index == 0 {
            "A folded particle fabric"@
        } else if index == 1 {
            "A low-frequency depth tunnel"@
        } else if index == 2 {
            "Frequency in orbit"@
        } else if index == 3 {
            "A transient eclipse"@
        } else if index == 4 {
            "Loudness etched into grooves"@
        } else if index == 5 {
            "A three-band flow field"@
        } else if index == 6 {
            "Layered spectrum ribbons"@
        } else if index == 7 {
            "Spectrum petals in bloom"@
        } else if index == 8 {
            "A rippling point surface"@
        } else if index == 9 {
            "A travelling ridge of particles"@
        } else {
            "Album artwork in relief"@
        },
        Language::SimplifiedChinese => if index == 0 {
            "折叠的粒子织面"@
        } else if index == 1 {
            "低频塑造纵深"@
        } else if index == 2 {
            "让频率进入轨道"@
        } else if index == 3 {
            "瞬态掠过日蚀"@
        } else if index == 4 {
            "把响度刻进声槽"@
        } else if index == 5 {
            "三频交织的流场"@
        } else if index == 6 {
            "层叠的频谱丝带"@
        } else if index == 7 {
            "绽放的频谱花瓣"@
        } else if index == 8 {
            "荡漾的点阵表面"@
        } else if index == 9 {
            "行进的粒子山脊"@
        } else {
            "立体浮起的专辑封面"@
        },
    }
}

/// What built-in effect `index` responds to.
pub open spec fn preset_response(language: Language, index: usize) -> Seq<char> {
    match language {
        Language::English => if index == 0 {
            "Pitch · mids · spectral centroid"@
        } else if index == 1 {
            "Bass · transients · loudness"@
        } else if index == 2 {
            "Dominant frequency · treble · energy"@
        } else if index == 3 {
            "Spectrum · peak · transients"@
        } else if index == 4 {
            "Loudness · bass · spectrum"@
        } else if index == 5 {
            "Bass · mids · treble"@
        } else if index == 6 {
            "Spectrum · transients · pitch"@
        } else if index == 7 {
            "Pitch · transients · spectrum"@
        } else if index == 8 {
            "Spectrum · transients · bass"@
        } else if index == 9 {
            "Spectrum · bass"@
        } else {
            "Spectrum · bass · transients"@
        },
        Language::SimplifiedChinese => if index == 0 {
            "音高 · 中频 · 频谱质心"@
        } else if index == 1 {
            "低频 · 瞬态 · 响度"@
        } else if index == 2 {
            "主频 · 高频 · 能量"@
        } else if index == 3 {
            "频谱 · 峰值 · 瞬态"@
        } else if index == 4 {
            "响度 · 低频 · 频谱"@
        } else if index == 5 {
            "低频 · 中频 · 高频"@
        } else if index == 6 {
            "频谱 · 瞬态 · 音高"@
        } else if index == 7 {
            "音高 · 瞬态 · 频谱"@
        } else if index == 8 {
            "频谱 · 瞬态 · 低频"@
        } else if index == 9 {
            "频谱 · 低频"@
        } else {
            "频谱 · 低频 · 瞬态"@
        },
    }
}

/// The localized name, subtitle and response of built-in effect `index`
/// (0 to 10); an index past the last effect takes the last effect's copy.
pub fn visual_preset_text(language: Language, index: usize) -> (copy: VisualPresetText)
    ensures
        copy.name@ == preset_name(language, index),
        copy.subtitle@ == preset_subtitle(language, index),
        copy.response@ == preset_response(language, index),
{
    match language {
        Language::English => match index {
            0 => VisualPresetText {
                name: "Particle Veil",
                subtitle: "A folded particle fabric",
                response: "Pitch · mids · spectral centroid",
            },
            1 => VisualPresetText {
                name: "Pulse Tunnel",
                subtitle: "A low-frequency depth tunnel",
                response: "Bass · transients · loudness",
            },
            2 => VisualPresetText {
                name: "Orbital Core",
                subtitle: "Frequency in orbit",
                response: "Dominant frequency · treble · energy",
            },
            3 => VisualPresetText {
                name: "Spectral Void",
                subtitle: "A transient eclipse",
                response: "Spectrum · peak · transients",
            },
            4 => VisualPresetText {
                name: "Vinyl Halo",
                subtitle: "Loudness etched into grooves",
                response: "Loudness · bass · spectrum",
            },
            5 => VisualPresetText {
                name: "Star River",
                subtitle: "A three-band flow field",
                response: "Bass · mids · treble",
            },
            6 => VisualPresetText {
                name: "Prism Ribbons",
                subtitle: "Layered spectrum ribbons",
                response: "Spectrum · transients · pitch",
            },
            7 => VisualPresetText {
                name: "Luminous Bloom",
                subtitle: "Spectrum petals in bloom",
                response: "Pitch · transients · spectrum",
            },
            8 => VisualPresetText {
                name: "Ripple Field",
                subtitle: "A rippling point surface",
                response: "Spectrum · transients · bass",
            },
            9 => VisualPresetText {
                name: "Particle Terrain",
                subtitle: "A travelling ridge of particles",
                response: "Spectrum · bass",
            },
            _ => VisualPresetText {
                name: "Cover Relief",
                subtitle: "Album artwork in relief",
                response: "Spectrum · bass · transients",
            },
        },
        Language::SimplifiedChinese => match index {
            0 => VisualPresetText {
                name: "粒子帷幕",
                subtitle: "折叠的粒子织面",
                response: "音高 · 中频 · 频谱质心",
            },
            1 => VisualPresetText {
                name: "脉冲隧道",
                subtitle: "低频塑造纵深",
                response: "低频 · 瞬态 · 响度",
            },
            2 => VisualPresetText {
                name: "轨道核心",
                subtitle: "让频率进入轨道",
                response: "主频 · 高频 · 能量",
            },
            3 => VisualPresetText {
                name: "频谱虚空",
                subtitle: "瞬态掠过日蚀",
                response: "频谱 · 峰值 · 瞬态",
            },
            4 => VisualPresetText {
                name: "黑胶光环",
                subtitle: "把响度刻进声槽",
                response: "响度 · 低频 · 频谱",
            },
            5 => VisualPresetText {
                name: "星河",
                subtitle: "三频交织的流场",
                response: "低频 · 中频 · 高频",
            },
            6 => VisualPresetText {
                name: "棱镜丝带",
                subtitle: "层叠的频谱丝带",
                response: "频谱 · 瞬态 · 音高",
            },
            7 => VisualPresetText {
                name: "流光绽放",
                subtitle: "绽放的频谱花瓣",
                response: "音高 · 瞬态 · 频谱",
            },
            8 => VisualPresetText {
                name: "涟漪场",
                subtitle: "荡漾的点阵表面",
                response: "频谱 · 瞬态 · 低频",
            },
            9 => VisualPresetText {
                name: "粒子地形",
                subtitle: "行进的粒子山脊",
                response: "频谱 · 低频",
            },
            _ => VisualPresetText {
                name: "封面浮雕",
                subtitle: "立体浮起的专辑封面",
                response: "频谱 · 低频 · 瞬态",
            },
        },
    }
}

/// A CJK unified ideograph (U+4E00 to U+9FFF).
pub open spec fn is_cjk_ideograph(c: char) -> bool {
    '\u{4e00}' <= c && c <= '\u{9fff}'
}

/// Some character of `s` is a CJK unified ideograph.
pub open spec fn has_cjk(s: Seq<char>) -> bool {
    exists|i: int| 0 <= i < s.len() && #[trigger] is_cjk_ideograph(s[i])
}

/// Every preset is fully localized: its English copy holds no CJK
/// ideograph, and each field of its Chinese copy holds at least one.
pub proof fn visual_presets_are_localized(index: usize)
    ensures
        !has_cjk(preset_name(Language::English, index)),
        !has_cjk(preset_subtitle(Language::English, index)),
        !has_cjk(preset_response(Language::English, index)),
        has_cjk(preset_name(Language::SimplifiedChinese, index)),
        has_cjk(preset_subtitle(Language::SimplifiedChinese, index)),
        has_cjk(preset_response(Language::SimplifiedChinese, index)),
{
    reveal_strlit("Particle Veil");
    reveal_strlit("A folded particle fabric");
    reveal_strlit("Pitch · mids · spectral centroid");
    reveal_strlit("Pulse Tunnel");
    reveal_strlit("A low-frequency depth tunnel");
    reveal_strlit("Bass · transients · loudness");
    reveal_strlit("Orbital Core");
    reveal_strlit("Frequency in orbit");
    reveal_strlit("Dominant frequency · treble · energy");
    reveal_strlit("Spectral Void");
    reveal_strlit("A transient eclipse");
    reveal_strlit("Spectrum · peak · transients");
    reveal_strlit("Vinyl Halo");
    reveal_strlit("Loudness etched into grooves");
    reveal_strlit("Loudness · bass · spectrum");
    reveal_strlit("Star River");
    reveal_strlit("A three-band flow field");
    reveal_strlit("Bass · mids · treble");
    reveal_strlit("Prism Ribbons");
    reveal_strlit("Layered spectrum ribbons");
    reveal_strlit("Spectrum · transients · pitch");
    reveal_strlit("Luminous Bloom");
    reveal_strlit("Spectrum petals in bloom");
    reveal_strlit("Pitch · transients · spectrum");
    reveal_strlit("Ripple Field");
    reveal_strlit("A rippling point surface");
    reveal_strlit("Spectrum · transients · bass");
    reveal_strlit("Particle Terrain");
    reveal_strlit("A travelling ridge of particles");
    reveal_strlit("Spectrum · bass");
    reveal_strlit("Cover Relief");
    reveal_strlit("Album artwork in relief");
    reveal_strlit("Spectrum · bass · transients");
    reveal_strlit("粒子帷幕");
    reveal_strlit("折叠的粒子织面");
    reveal_strlit("音高 · 中频 · 频谱质心");
    reveal_strlit("脉冲隧道");
    reveal_strlit("低频塑造纵深");
    reveal_strlit("低频 · 瞬态 · 响度");
    reveal_strlit("轨道核心");
    reveal_strlit("让频率进入轨道");
    reveal_strlit("主频 · 高频 · 能量");
    reveal_strlit("频谱虚空");
    reveal_strlit("瞬态掠过日蚀");
    reveal_strlit("频谱 · 峰值 · 瞬态");
    reveal_strlit("黑胶光环");
    reveal_strlit("把响度刻进声槽");
    reveal_strlit("响度 · 低频 · 频谱");
    reveal_strlit("星河");
    reveal_strlit("三频交织的流场");
    reveal_strlit("低频 · 中频 · 高频");
    reveal_strlit("棱镜丝带");
    reveal_strlit("层叠的频谱丝带");
    reveal_strlit("频谱 · 瞬态 · 音高");
    reveal_strlit("流光绽放");
    reveal_strlit("绽放的频谱花瓣");
    reveal_strlit("音高 · 瞬态 · 频谱");
    reveal_strlit("涟漪场");
    reveal_strlit("荡漾的点阵表面");
    reveal_strlit("频谱 · 瞬态 · 低频");
    reveal_strlit("粒子地形");
    reveal_strlit("行进的粒子山脊");
    reveal_strlit("频谱 · 低频");
    reveal_strlit("封面浮雕");
    reveal_strlit("立体浮起的专辑封面");
    reveal_strlit("频谱 · 低频 · 瞬态");
    assert(is_cjk_ideograph(preset_name(Language::SimplifiedChinese, index)[0]));
    assert(is_cjk_ideograph(preset_subtitle(Language::SimplifiedChinese, index)[0]));
    assert(is_cjk_ideograph(preset_response(Language::SimplifiedChinese, index)[0]));
}

} // verus!
