use limusic::endpoints::created_playlist_id;
use limusic::models::browse::{
    continuation_token, is_signed_out, parse_album, parse_artist, parse_home, parse_library,
    parse_playlist, parse_playlist_continuation, parse_search_all, parse_search_cards,
};
use limusic::models::json::{find_first_str, Json};
use limusic::models::metadata::{parse_account_menu, parse_next, parse_search};
use limusic::transport::{sha1_hex, visitor_data_from, visitor_json};

fn conv(v: &serde_json::Value) -> Json {
    match v {
        serde_json::Value::Null => Json::Null,
        serde_json::Value::Bool(b) => Json::Bool(*b),
        serde_json::Value::Number(n) => Json::Number(n.to_string()),
        serde_json::Value::String(s) => Json::Str(s.clone()),
        serde_json::Value::Array(a) => Json::Array(a.iter().map(conv).collect()),
        serde_json::Value::Object(m) => {
            Json::Object(m.iter().map(|(k, v)| (k.clone(), conv(v))).collect())
        }
    }
}

fn json(text: &str) -> Json {
    conv(&serde_json::from_str::<serde_json::Value>(text).unwrap())
}

#[test]
fn parses_search_item() {
    let root = json(
        r#"{
        "a": { "musicResponsiveListItemRenderer": {
            "playlistItemData": { "videoId": "abc123" },
            "flexColumns": [
                { "musicResponsiveListItemFlexColumnRenderer": { "text": { "runs": [{ "text": "Song Title" }] } } },
                { "musicResponsiveListItemFlexColumnRenderer": { "text": { "runs": [
                    { "text": "The Artist", "navigationEndpoint": { "browseEndpoint": { "browseId": "UCartist1" } } },
                    { "text": " • " },
                    { "text": "The Album", "navigationEndpoint": { "browseEndpoint": { "browseId": "MPREalbum1" } } },
                    { "text": " • " }, { "text": "3:21" }
                ] } } }
            ],
            "thumbnail": { "musicThumbnailRenderer": { "thumbnail": { "thumbnails": [
                { "url": "small.jpg" }, { "url": "big.jpg" }
            ] } } }
        }}
    }"#,
    );
    let r = parse_search(&root);
    assert_eq!(r.items.len(), 1);
    let s = &r.items[0];
    assert_eq!(s.video_id, "abc123");
    assert_eq!(s.title, "Song Title");
    assert_eq!(s.artists, "The Artist");
    assert_eq!(s.artist_id.as_deref(), Some("UCartist1"));
    assert_eq!(s.album.as_deref(), Some("The Album"));
    assert_eq!(s.album_id.as_deref(), Some("MPREalbum1"));
    assert_eq!(s.duration.as_deref(), Some("3:21"));
    assert_eq!(s.thumbnail.as_deref(), Some("big.jpg"));
}

#[test]
fn parses_next_panel_video() {
    let root = json(
        r#"{
        "contents": { "playlistPanelRenderer": { "contents": [
            { "playlistPanelVideoRenderer": {
                "videoId": "vid9",
                "title": { "runs": [{ "text": "Next Song" }] },
                "longBylineText": { "runs": [{ "text": "Artist A" }, { "text": " & " }, { "text": "Artist B" }] },
                "lengthText": { "runs": [{ "text": "4:05" }] },
                "thumbnail": { "thumbnails": [{ "url": "t.jpg" }] }
            }}
        ], "continuations": [{ "nextContinuationData": { "continuation": "CONT_TOKEN" } }] } },
        "tabs": [{ "tabRenderer": { "title": "Lyrics", "endpoint": { "browseEndpoint": {
            "browseId": "MPLYt_abc123",
            "browseEndpointContextSupportedConfigs": { "browseEndpointContextMusicConfig": {
                "pageType": "MUSIC_PAGE_TYPE_TRACK_LYRICS" } }
        } } } }]
    }"#,
    );
    let r = parse_next(&root);
    assert_eq!(r.items.len(), 1);
    assert_eq!(r.items[0].video_id, "vid9");
    assert_eq!(r.items[0].title, "Next Song");
    assert_eq!(r.items[0].artists, "Artist A & Artist B");
    assert_eq!(r.items[0].duration.as_deref(), Some("4:05"));
    assert_eq!(r.continuation.as_deref(), Some("CONT_TOKEN"));
    assert_eq!(r.lyrics_browse_id.as_deref(), Some("MPLYt_abc123"));
}

#[test]
fn parses_account_menu() {
    let root = json(
        r#"{
        "responseContext": {
            "visitorData": "CgtNEWVISITOR",
            "mainAppWebResponseContext": { "datasyncId": "1234||5678" }
        },
        "actions": [{ "openPopupAction": { "popup": { "multiPageMenuRenderer": { "sections": [{
            "activeAccountHeaderRenderer": {
                "accountName": { "runs": [{ "text": "Jane Doe" }] },
                "channelHandle": { "runs": [{ "text": "@janedoe" }] },
                "accountPhoto": { "thumbnails": [{ "url": "small.jpg" }, { "url": "big.jpg" }] }
            }
        }] } } } }]
    }"#,
    );
    let a = parse_account_menu(&root);
    assert_eq!(a.name.as_deref(), Some("Jane Doe"));
    assert_eq!(a.handle.as_deref(), Some("@janedoe"));
    assert_eq!(a.thumbnail.as_deref(), Some("big.jpg"));
    assert_eq!(a.data_sync_id.as_deref(), Some("1234"));
    assert_eq!(a.visitor_data.as_deref(), Some("CgtNEWVISITOR"));
}

#[test]
fn create_playlist_id_parsed() {
    let resp = json(r#"{ "playlistId": "PLnew123", "status": "STATUS_SUCCEEDED" }"#);
    assert_eq!(find_first_str(&resp, "playlistId").as_deref(), Some("PLnew123"));
    assert_eq!(created_playlist_id(&resp).ok().as_deref(), Some("PLnew123"));
    let none = json(r#"{ "status": "STATUS_SUCCEEDED" }"#);
    assert_eq!(
        created_playlist_id(&none).err().map(|e| e.message()).as_deref(),
        Some("create_playlist: no playlistId in response")
    );
}

#[test]
fn sha1_known_vector() {
    let h: String = sha1_hex("abc").into_iter().collect();
    assert_eq!(h, "a9993e364706816aba3e25717850c26c9cd0d89d");
}

#[test]
fn parse_visitor_data_from_blob() {
    let blob = r#")]}'
[["wrs","x",["junk","CgtABCDEFG1234567%3D%3D","more"]],null]"#;
    let start = visitor_json(blob).ok().unwrap();
    let value = json(start);
    assert_eq!(visitor_data_from(&value).ok().unwrap(), "CgtABCDEFG1234567%3D%3D");
    assert!(visitor_json("no json here").is_err());
    assert!(visitor_data_from(&json(r#"[["a","b",["x","y"]]]"#)).is_err());
}

#[test]
fn parses_home_carousel() {
    let root = json(
        r#"{
        "header": { "chipCloudRenderer": { "chips": [
            { "chipCloudChipRenderer": {
                "text": { "runs": [{ "text": "Workout" }] },
                "navigationEndpoint": { "browseEndpoint": { "browseId": "FEmusic_home", "params": "ggNC0" } }
            } },
            { "chipCloudChipRenderer": { "text": { "runs": [{ "text": "Nowhere" }] } } }
        ] } },
        "contents": { "sectionListRenderer": {
            "continuations": [{ "nextContinuationData": { "continuation": "HOME_MORE" } }],
            "contents": [
            { "musicCarouselShelfRenderer": {
                "header": { "musicCarouselShelfBasicHeaderRenderer": {
                    "title": { "runs": [{ "text": "Mixed for you" }] },
                    "moreContentButton": { "buttonRenderer": { "navigationEndpoint": {
                        "browseEndpoint": { "browseId": "FEmusic_moods_and_genres_category", "params": "MOREPARAMS" }
                    } } }
                } },
                "contents": [
                    { "musicTwoRowItemRenderer": {
                        "title": { "runs": [{ "text": "My Mix", "navigationEndpoint": {} }] },
                        "subtitle": { "runs": [{ "text": "Playlist" }] },
                        "navigationEndpoint": { "browseEndpoint": { "browseId": "VLPL123" } },
                        "thumbnailRenderer": { "musicThumbnailRenderer": { "thumbnail": { "thumbnails": [
                            { "url": "a.jpg" }, { "url": "b.jpg" }
                        ] } } }
                    } },
                    { "musicTwoRowItemRenderer": {
                        "title": { "runs": [{ "text": "Some Album" }] },
                        "subtitle": { "runs": [{ "text": "Album • Artist" }] },
                        "navigationEndpoint": { "browseEndpoint": { "browseId": "MPREb_abc" } }
                    } }
                ]
            } },
            { "musicCarouselShelfRenderer": {
                "header": { "musicCarouselShelfBasicHeaderRenderer": {
                    "title": { "runs": [{ "text": "Recommended albums" }] }
                } },
                "contents": [
                    { "musicTwoRowItemRenderer": {
                        "title": { "runs": [{ "text": "Another Album" }] },
                        "navigationEndpoint": { "browseEndpoint": { "browseId": "MPREc_xyz" } }
                    } }
                ]
            } }
        ] } }
    }"#,
    );
    let home = parse_home(&root);
    assert_eq!(home.chips.len(), 1);
    assert_eq!(home.chips[0].title, "Workout");
    assert_eq!(home.chips[0].params, "ggNC0");
    assert_eq!(home.sections.len(), 2);
    let s = &home.sections[0];
    assert_eq!(s.title, "Mixed for you");
    assert_eq!(s.items.len(), 2);
    assert_eq!(s.items[0].kind, "playlist");
    assert_eq!(s.items[0].id, "VLPL123");
    assert_eq!(s.items[0].title, "My Mix");
    assert_eq!(s.items[0].thumbnail.as_deref(), Some("b.jpg"));
    assert_eq!(s.items[1].kind, "album");
    assert_eq!(s.items[1].id, "MPREb_abc");
    assert_eq!(s.more_browse_id.as_deref(), Some("FEmusic_moods_and_genres_category"));
    assert_eq!(s.more_params.as_deref(), Some("MOREPARAMS"));
    let s2 = &home.sections[1];
    assert_eq!(s2.title, "Recommended albums");
    assert_eq!(s2.more_browse_id, None);
    assert_eq!(s2.more_params, None);
    assert_eq!(home.continuation.as_deref(), Some("HOME_MORE"));
}

#[test]
fn home_continuation_absent_when_no_token() {
    let root = json(
        r#"{
        "contents": { "sectionListRenderer": { "contents": [
            { "musicCarouselShelfRenderer": {
                "header": { "musicCarouselShelfBasicHeaderRenderer": {
                    "title": { "runs": [{ "text": "Mixed for you" }] }
                } },
                "contents": [
                    { "musicTwoRowItemRenderer": {
                        "title": { "runs": [{ "text": "My Mix" }] },
                        "navigationEndpoint": { "browseEndpoint": { "browseId": "VLPL123" } }
                    } }
                ]
            } }
        ] } }
    }"#,
    );
    let home = parse_home(&root);
    assert_eq!(home.continuation, None);
}

#[test]
fn parses_library_grid() {
    let root = json(
        r#"{
        "gridRenderer": { "items": [
            { "musicTwoRowItemRenderer": {
                "title": { "runs": [{ "text": "Chill" }] },
                "subtitle": { "runs": [{ "text": "12 songs" }] },
                "navigationEndpoint": { "browseEndpoint": { "browseId": "VLPLchill" } }
            } },
            { "musicTwoRowItemRenderer": {
                "title": { "runs": [{ "text": "Focus" }] },
                "navigationEndpoint": { "browseEndpoint": { "browseId": "VLPLfocus" } }
            } }
        ] }
    }"#,
    );
    let items = parse_library(&root);
    assert_eq!(items.len(), 2);
    assert!(items.iter().all(|i| i.kind == "playlist"));
    assert_eq!(items[0].id, "VLPLchill");
    assert_eq!(items[0].subtitle.as_deref(), Some("12 songs"));
}

#[test]
fn parses_playlist_page() {
    let root = json(
        r#"{
        "header": { "musicResponsiveHeaderRenderer": {
            "title": { "runs": [{ "text": "Road Trip" }] },
            "secondSubtitle": { "runs": [{ "text": "2 songs • 7 min" }] },
            "thumbnail": { "musicThumbnailRenderer": { "thumbnail": { "thumbnails": [
                { "url": "cover.jpg" }
            ] } } }
        } },
        "contents": { "singleColumnBrowseResultsRenderer": { "tabs": [{ "tabRenderer": { "content": {
            "sectionListRenderer": { "contents": [{ "musicPlaylistShelfRenderer": { "contents": [
                { "musicResponsiveListItemRenderer": {
                    "playlistItemData": { "videoId": "vid1" },
                    "flexColumns": [
                        { "musicResponsiveListItemFlexColumnRenderer": { "text": { "runs": [{ "text": "Track One" }] } } },
                        { "musicResponsiveListItemFlexColumnRenderer": { "text": { "runs": [{ "text": "Artist X" }] } } }
                    ]
                } },
                { "musicResponsiveListItemRenderer": {
                    "playlistItemData": { "videoId": "vid2" },
                    "flexColumns": [
                        { "musicResponsiveListItemFlexColumnRenderer": { "text": { "runs": [{ "text": "Track Two" }] } } },
                        { "musicResponsiveListItemFlexColumnRenderer": { "text": { "runs": [{ "text": "Artist Y" }] } } }
                    ]
                } }
            ], "continuations": [{ "nextContinuationData": { "continuation": "MORE_TOKEN" } }] } }] }
        } } }] } }
    }"#,
    );
    let p = parse_playlist(&root);
    assert_eq!(p.title.as_deref(), Some("Road Trip"));
    assert_eq!(p.subtitle.as_deref(), Some("2 songs • 7 min"));
    assert_eq!(p.thumbnail.as_deref(), Some("cover.jpg"));
    assert_eq!(p.items.len(), 2);
    assert_eq!(p.items[0].video_id, "vid1");
    assert_eq!(p.items[1].title, "Track Two");
    assert_eq!(p.continuation.as_deref(), Some("MORE_TOKEN"));
    assert!(!p.owned);
}

fn editable_row(vid: &str, title: &str) -> String {
    format!(
        r#"{{ "musicResponsiveListItemRenderer": {{
            "playlistItemData": {{ "videoId": "{vid}" }},
            "flexColumns": [
                {{ "musicResponsiveListItemFlexColumnRenderer": {{ "text": {{ "runs": [{{ "text": "{title}" }}] }} }} }}
            ],
            "fixedColumns": [{{ "musicResponsiveListItemFixedColumnRenderer": {{ "button": {{
                "buttonRenderer": {{ "command": {{ "playlistEditEndpoint": {{ "clientActions": [
                    {{ "musicAddSuggestionToPlaylistCommand": {{ "addToPlaylistCommand": {{
                        "insertShelfItemCommand": {{ "item": {{
                            "musicResponsiveListItemRenderer": {{ "playlistItemData": {{ "videoId": "{vid}" }} }}
                        }} }}
                    }} }} }}
                ] }} }} }}
            }} }} }}]
        }} }}"#
    )
}

#[test]
fn continuation_ignores_nested_edit_renderer() {
    let text = format!(
        r#"{{ "continuationContents": {{ "sectionListContinuation": {{
        "contents": [{{ "musicShelfRenderer": {{
            "contents": [{}, {}],
            "continuations": [{{ "nextContinuationData": {{ "continuation": "NEXT" }} }}]
        }} }}]
    }} }} }}"#,
        editable_row("a1", "Alpha"),
        editable_row("b2", "Beta")
    );
    let root = json(&text);
    let c = parse_playlist_continuation(&root);
    assert_eq!(c.items.len(), 2, "each track must appear once, not twice");
    assert_eq!(c.items[0].video_id, "a1");
    assert_eq!(c.items[1].video_id, "b2");
    assert_eq!(c.continuation.as_deref(), Some("NEXT"));
}

#[test]
fn detects_owned_playlist() {
    let root = json(
        r#"{
        "header": { "musicEditablePlaylistDetailHeaderRenderer": {
            "header": { "musicResponsiveHeaderRenderer": {
                "title": { "runs": [{ "text": "My Playlist" }] }
            } }
        } }
    }"#,
    );
    let p = parse_playlist(&root);
    assert_eq!(p.title.as_deref(), Some("My Playlist"));
    assert!(p.owned);
}

#[test]
fn detects_signed_out_state() {
    let signed_out = json(
        r#"{
        "contents": { "sectionListRenderer": { "contents": [{ "itemSectionRenderer": { "contents": [
            { "messageRenderer": {
                "text": { "runs": [{ "text": "Looking for what you've liked?" }] },
                "button": { "buttonRenderer": { "navigationEndpoint": { "signInEndpoint": { "hack": true } } } }
            } }
        ] } }] } }
    }"#,
    );
    assert!(is_signed_out(&signed_out));
    let ok = json(r#"{ "contents": { "musicPlaylistShelfRenderer": { "contents": [] } } }"#);
    assert!(!is_signed_out(&ok));
}

#[test]
fn parses_search_all_sections() {
    let song_row = r#"{ "musicResponsiveListItemRenderer": {
        "playlistItemData": { "videoId": "svid" },
        "flexColumns": [
            { "musicResponsiveListItemFlexColumnRenderer": { "text": { "runs": [{ "text": "A Song" }] } } },
            { "musicResponsiveListItemFlexColumnRenderer": { "text": { "runs": [{ "text": "An Artist" }] } } }
        ]
    } }"#;
    let album_row = r#"{ "musicResponsiveListItemRenderer": {
        "navigationEndpoint": { "browseEndpoint": { "browseId": "MPREalb" } },
        "flexColumns": [
            { "musicResponsiveListItemFlexColumnRenderer": { "text": { "runs": [{ "text": "An Album" }] } } },
            { "musicResponsiveListItemFlexColumnRenderer": { "text": { "runs": [{ "text": "2026" }] } } }
        ]
    } }"#;
    let artist_row = r#"{ "musicResponsiveListItemRenderer": {
        "navigationEndpoint": { "browseEndpoint": { "browseId": "UCart" } },
        "flexColumns": [
            { "musicResponsiveListItemFlexColumnRenderer": { "text": { "runs": [{ "text": "The Artist" }] } } }
        ]
    } }"#;
    let text = format!(
        r#"{{ "contents": {{ "tabbedSearchResultsRenderer": {{ "tabs": [{{ "tabRenderer": {{ "content": {{
        "sectionListRenderer": {{ "contents": [
            {{ "musicCardShelfRenderer": {{
                "title": {{ "runs": [{{ "text": "The Artist", "navigationEndpoint": {{ "browseEndpoint": {{ "browseId": "UCart" }} }} }}] }},
                "subtitle": {{ "runs": [{{ "text": "Artist" }}] }},
                "thumbnail": {{ "musicThumbnailRenderer": {{ "thumbnail": {{ "thumbnails": [{{ "url": "top.jpg" }}] }} }} }},
                "contents": []
            }} }},
            {{ "itemSectionRenderer": {{ "contents": [{song_row}] }} }},
            {{ "itemSectionRenderer": {{ "contents": [{album_row}] }} }},
            {{ "itemSectionRenderer": {{ "contents": [{artist_row}] }} }}
        ] }}
    }} }} }}] }} }} }}"#
    );
    let root = json(&text);
    let r = parse_search_all(&root);
    assert_eq!(r.top.len(), 1);
    assert_eq!(r.top[0].kind, "artist");
    assert_eq!(r.top[0].id, "UCart");
    assert_eq!(r.songs.len(), 1);
    assert_eq!(r.songs[0].kind, "song");
    assert_eq!(r.songs[0].id, "svid");
    assert_eq!(r.albums.len(), 1);
    assert_eq!(r.albums[0].kind, "album");
    assert_eq!(r.albums[0].id, "MPREalb");
    assert_eq!(r.artists.len(), 1);
    assert_eq!(r.artists[0].kind, "artist");
    assert_eq!(r.artists[0].title, "The Artist");
}

#[test]
fn parses_album_page() {
    let root = json(
        r#"{
        "header": { "musicResponsiveHeaderRenderer": {
            "title": { "runs": [{ "text": "ICEMAN" }] },
            "subtitle": { "runs": [{ "text": "Album • 2026" }] },
            "secondSubtitle": { "runs": [{ "text": "18 songs • 1 hour, 8 minutes" }] },
            "straplineTextOne": { "runs": [
                { "text": "Drake", "navigationEndpoint": { "browseEndpoint": { "browseId": "UCdrake" } } }
            ] },
            "straplineThumbnail": { "musicThumbnailRenderer": { "thumbnail": { "thumbnails": [
                { "url": "artist_avatar.jpg" }
            ] } } },
            "thumbnail": { "musicThumbnailRenderer": { "thumbnail": { "thumbnails": [
                { "url": "cover_small.jpg" }, { "url": "cover_big.jpg" }
            ] } } },
            "description": { "runs": [{ "text": "Iceman is one of three studio albums." }] }
        } },
        "contents": { "singleColumnBrowseResultsRenderer": { "tabs": [{ "tabRenderer": { "content": {
            "sectionListRenderer": { "contents": [
                { "musicShelfRenderer": { "contents": [
                    { "musicResponsiveListItemRenderer": {
                        "playlistItemData": { "videoId": "trk1" },
                        "flexColumns": [
                            { "musicResponsiveListItemFlexColumnRenderer": { "text": { "runs": [{
                                "text": "Make Them Cry",
                                "navigationEndpoint": { "watchEndpoint": { "videoId": "trk1", "playlistId": "OLAK5uy_iceman" } }
                            }] } } },
                            { "musicResponsiveListItemFlexColumnRenderer": { "text": { "runs": [{ "text": "Drake" }] } } }
                        ]
                    } }
                ] } },
                { "musicCarouselShelfRenderer": { "contents": [
                    { "musicTwoRowItemRenderer": {
                        "title": { "runs": [{ "text": "Other Album" }] },
                        "thumbnailOverlay": { "musicItemThumbnailOverlayRenderer": { "content": {
                            "musicPlayButtonRenderer": { "playNavigationEndpoint": {
                                "watchPlaylistEndpoint": { "playlistId": "OLAK5uy_other" }
                            } }
                        } } }
                    } }
                ] } }
            ] }
        } } }] } }
    }"#,
    );
    let a = parse_album(&root);
    assert_eq!(a.title.as_deref(), Some("ICEMAN"));
    assert_eq!(a.subtitle.as_deref(), Some("Album • 2026"));
    assert_eq!(a.second_subtitle.as_deref(), Some("18 songs • 1 hour, 8 minutes"));
    assert_eq!(a.artist.as_deref(), Some("Drake"));
    assert_eq!(a.artist_id.as_deref(), Some("UCdrake"));
    assert_eq!(a.artist_thumbnail.as_deref(), Some("artist_avatar.jpg"));
    assert_eq!(a.thumbnail.as_deref(), Some("cover_big.jpg"));
    assert_eq!(a.description.as_deref(), Some("Iceman is one of three studio albums."));
    assert_eq!(a.items.len(), 1);
    assert_eq!(a.items[0].video_id, "trk1");
    assert_eq!(a.items[0].thumbnail.as_deref(), Some("cover_big.jpg"));
    assert_eq!(a.playlist_id.as_deref(), Some("OLAK5uy_iceman"));
}

#[test]
fn parses_artist_page() {
    let root = json(
        r#"{
        "header": { "musicImmersiveHeaderRenderer": {
            "title": { "runs": [{ "text": "Drake" }] },
            "description": { "runs": [{ "text": "Aubrey Drake Graham is a Canadian rapper." }] },
            "thumbnail": { "musicThumbnailRenderer": { "thumbnail": { "thumbnails": [
                { "url": "small.jpg" }, { "url": "hero.jpg" }
            ] } } },
            "subscriptionButton": { "subscribeButtonRenderer": {
                "channelId": "UCdrake",
                "subscribed": true,
                "subscriberCountText": { "runs": [{ "text": "32.7M subscribers" }] }
            } }
        } },
        "contents": { "singleColumnBrowseResultsRenderer": { "tabs": [{ "tabRenderer": { "content": {
            "sectionListRenderer": { "contents": [
                { "musicShelfRenderer": { "title": { "runs": [{ "text": "Songs" }] }, "contents": [
                    { "musicResponsiveListItemRenderer": {
                        "playlistItemData": { "videoId": "song1" },
                        "flexColumns": [
                            { "musicResponsiveListItemFlexColumnRenderer": { "text": { "runs": [{ "text": "God's Plan" }] } } },
                            { "musicResponsiveListItemFlexColumnRenderer": { "text": { "runs": [{ "text": "Drake" }] } } }
                        ]
                    } }
                ] } },
                { "musicCarouselShelfRenderer": {
                    "header": { "musicCarouselShelfBasicHeaderRenderer": {
                        "title": { "runs": [{ "text": "Albums" }] },
                        "moreContentButton": { "buttonRenderer": { "navigationEndpoint": {
                            "browseEndpoint": { "browseId": "UCdrake", "params": "ALBUMS_PARAMS" }
                        } } }
                    } },
                    "contents": [
                        { "musicTwoRowItemRenderer": {
                            "title": { "runs": [{ "text": "ICEMAN" }] },
                            "subtitle": { "runs": [{ "text": "Album • 2026" }] },
                            "navigationEndpoint": { "browseEndpoint": { "browseId": "MPREiceman" } }
                        } }
                    ]
                } }
            ] }
        } } }] } }
    }"#,
    );
    let a = parse_artist(&root, "UCdrake");
    assert_eq!(a.name.as_deref(), Some("Drake"));
    assert_eq!(a.thumbnail.as_deref(), Some("hero.jpg"));
    assert_eq!(a.channel_id, "UCdrake");
    assert!(a.subscribed);
    assert_eq!(a.subscribers.as_deref(), Some("32.7M subscribers"));
    assert_eq!(a.top_songs.len(), 1);
    assert_eq!(a.top_songs[0].video_id, "song1");
    assert_eq!(a.sections.len(), 1);
    assert_eq!(a.sections[0].title, "Albums");
    assert_eq!(a.sections[0].items[0].kind, "album");
    assert_eq!(a.sections[0].more_browse_id.as_deref(), Some("UCdrake"));
    assert_eq!(a.sections[0].more_params.as_deref(), Some("ALBUMS_PARAMS"));
}

#[test]
fn continuation_prefers_modern_token() {
    let root = json(
        r#"{
        "continuationItemRenderer": { "continuationEndpoint": {
            "continuationCommand": { "token": "MODERN" }
        } }
    }"#,
    );
    assert_eq!(continuation_token(&root).as_deref(), Some("MODERN"));
}

#[test]
fn search_rows_become_cards() {
    let root = json(
        r#"{ "contents": [
        { "musicResponsiveListItemRenderer": {
            "flexColumns": [
                { "musicResponsiveListItemFlexColumnRenderer": { "text": { "runs": [{ "text": "An Artist" }] } } },
                { "musicResponsiveListItemFlexColumnRenderer": { "text": { "runs": [{ "text": "Artist" }, { "text": " • 1M" }] } } }
            ],
            "navigationEndpoint": { "browseEndpoint": { "browseId": "UCx" } }
        }},
        { "musicResponsiveListItemRenderer": {
            "playlistItemData": { "videoId": "v9" },
            "flexColumns": [
                { "musicResponsiveListItemFlexColumnRenderer": { "text": { "runs": [{ "text": "A Song" }] } } }
            ]
        }},
        { "musicResponsiveListItemRenderer": { "flexColumns": [] } }
    ] }"#,
    );
    let cards = parse_search_cards(&root);
    assert_eq!(cards.len(), 2, "a row with no title is left out");
    assert_eq!(cards[0].kind, "artist");
    assert_eq!(cards[0].id, "UCx");
    assert_eq!(cards[0].title, "An Artist");
    assert_eq!(cards[0].subtitle.as_deref(), Some("Artist • 1M"));
    assert_eq!(cards[1].kind, "song");
    assert_eq!(cards[1].id, "v9");
    assert_eq!(cards[1].subtitle, None);
}
