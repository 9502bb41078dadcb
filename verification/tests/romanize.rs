use limusic::lyrics::{LyricLine, Lyrics};
use limusic::romanize::fill;
use limusic::romanize::japanese::{japanese_run, Token};
use limusic::romanize::korean::korean;
use limusic::romanize::line::{chinese, romanize_line, JapaneseRun};
use limusic::romanize::script::{class, dominant_script, Class};

#[test]
fn korean_applies_the_sound_changes() {
    for (hangul, want) in [
        ("좋아해", "joahae"),
        ("같이", "gachi"),
        ("있고", "itgo"),
        ("싶어", "sipeo"),
        ("않아", "ana"),
        ("읽다", "ikda"),
        ("숨이", "sumi"),
        ("막혀", "makyeo"),
        ("이렇게", "ireoke"),
        ("한국말", "hangungmal"),
        ("몰라", "molla"),
        ("신라", "silla"),
        ("입니다", "imnida"),
        ("있는", "inneun"),
        ("없어", "eopseo"),
        ("괜찮아", "gwaenchana"),
        ("꽃이", "kkochi"),
        ("밖에", "bakke"),
        ("앉아", "anja"),
        ("닭", "dak"),
        ("사랑해요", "saranghaeyo"),
        ("웃었지만", "useotjiman"),
        ("라면", "ramyeon"),
        ("심리", "simni"),
    ] {
        assert_eq!(korean(hangul), want, "{hangul}");
    }
}

#[test]
fn korean_line_keeps_the_english() {
    assert_eq!(romanize_line("말해 줘 Say it back", false, &[]), "malhae jwo Say it back");
    assert_eq!(romanize_line("Walk in this 미로", false, &[]), "Walk in this miro");
}

#[test]
fn picks_the_song_language_from_all_the_lines() {
    assert_eq!(dominant_script("東京の空\n東京"), Some("ja"));
    assert_eq!(dominant_script("还记得你说家是唯一的城堡の"), Some("zh"));
    assert_eq!(dominant_script("보고 싶다 Baby"), Some("ko"));
    assert_eq!(dominant_script("Я тебя люблю"), Some("cyrl"));
    assert_eq!(dominant_script("Only English here"), None);
    assert_eq!(dominant_script("तुम ही हो"), None);
}

#[test]
fn ties_go_to_the_later_candidate() {
    // One Han character and one Hangul syllable: Korean comes after CJK, so it wins the tie.
    assert_eq!(dominant_script("字한"), Some("ko"));
    // Greek first seen, then as many Cyrillic letters: the later alphabet wins.
    assert_eq!(dominant_script("αЯ"), Some("cyrl"));
}

#[test]
fn fill_skips_latin_lines_and_defers_to_apple() {
    let mut l = Lyrics {
        source: "t".into(),
        synced: false,
        instrumental: false,
        script: None,
        lines: vec![LyricLine::simple(None, "Я тебя люблю".into()), LyricLine::simple(None, "Hey".into())],
    };
    fill(&mut l, &[]);
    assert_eq!(l.script.as_deref(), Some("cyrl"));
    assert_eq!(l.lines[0].romanized.as_deref(), Some("Ya tebya lyublyu"));
    assert_eq!(l.lines[1].romanized, None);

    l.lines[0].romanized = Some("from apple".into());
    l.lines.push(LyricLine::simple(None, "Привет".into()));
    fill(&mut l, &[]);
    assert_eq!(l.lines[2].romanized, None);
}

#[test]
fn fill_leaves_latin_only_songs_alone() {
    let mut l = Lyrics {
        source: "t".into(),
        synced: true,
        instrumental: false,
        script: None,
        lines: vec![LyricLine::simple(Some(10), "Only English".into())],
    };
    fill(&mut l, &[]);
    assert_eq!(l.script, None);
    assert_eq!(l.lines[0].romanized, None);
}

#[test]
fn chinese_reads_one_syllable_per_character() {
    assert_eq!(chinese("你好"), "nǐ hǎo");
    assert_eq!(romanize_line("你好，世界", false, &[]), "nǐ hǎo, shì jiè");
}

#[test]
fn classes_by_code_point() {
    assert!(class('a') == Class::Keep);
    assert!(class('あ') == Class::Cjk);
    assert!(class('한') == Class::Hangul);
    assert!(class('Я') == Class::Alphabet);
    assert!(class('、') == Class::Punct);
    assert!(class('・') == Class::Punct);
}

fn tok(surface: &str, details: &[&str]) -> Token {
    Token { surface: surface.into(), details: details.iter().map(|s| s.to_string()).collect() }
}

#[test]
fn japanese_particles_and_counters_read_as_spoken() {
    // 君の名は: the topic particle は reads "wa".
    let toks = vec![
        tok("君", &["名詞", "代名詞", "*", "*", "*", "*", "君", "キミ"]),
        tok("の", &["助詞", "連体化", "*", "*", "*", "*", "の", "ノ"]),
        tok("名", &["名詞", "一般", "*", "*", "*", "*", "名", "ナ"]),
        tok("は", &["助詞", "係助詞", "*", "*", "*", "*", "は", "ハ"]),
    ];
    assert_eq!(japanese_run(&toks), "kimi no na wa");
    // 一人で: the number and its counter fuse into "hitori".
    let toks = vec![
        tok("一", &["名詞", "数", "*", "*", "*", "*", "一", "イチ"]),
        tok("人", &["名詞", "接尾", "*", "*", "*", "*", "人", "ニン"]),
        tok("で", &["助詞", "格助詞", "*", "*", "*", "*", "で", "デ"]),
    ];
    assert_eq!(japanese_run(&toks), "hitori de");
}

#[test]
fn japanese_runs_come_from_the_table() {
    let table = vec![JapaneseRun {
        text: "明日へ".into(),
        tokens: vec![
            tok("明日", &["名詞", "副詞可能", "*", "*", "*", "*", "明日", "アシタ"]),
            tok("へ", &["助詞", "格助詞", "*", "*", "*", "*", "へ", "ヘ"]),
        ],
    }];
    assert_eq!(romanize_line("明日へ", true, &table), "ashita e");
    // A run the analysis has nothing for stays as it is.
    assert_eq!(romanize_line("東京", true, &table), "東京");
}

/// What the IPADIC analyser gives for a run, one `surface:details` entry per token.
fn analysed(text: &str, toks: &[(&str, &str)]) -> JapaneseRun {
    JapaneseRun {
        text: text.into(),
        tokens: toks.iter().map(|(s, d)| tok(s, &d.split(',').collect::<Vec<_>>())).collect(),
    }
}

fn ipadic_table() -> Vec<JapaneseRun> {
    vec![
        analysed(
            "夢ならばどれほどよかったでしょう",
            &[
                ("夢", "名詞,一般,*,*,*,*,夢,ユメ,ユメ"),
                ("なら", "助動詞,*,*,*,特殊・ダ,仮定形,だ,ナラ,ナラ"),
                ("ば", "助詞,接続助詞,*,*,*,*,ば,バ,バ"),
                ("どれほど", "副詞,一般,*,*,*,*,どれほど,ドレホド,ドレホド"),
                ("よかっ", "形容詞,自立,*,*,形容詞・アウオ段,連用タ接続,よい,ヨカッ,ヨカッ"),
                ("た", "助動詞,*,*,*,特殊・タ,基本形,た,タ,タ"),
                ("でしょ", "助動詞,*,*,*,特殊・デス,未然形,です,デショ,デショ"),
                ("う", "助動詞,*,*,*,不変化型,基本形,う,ウ,ウ"),
            ],
        ),
        analysed(
            "君の名は",
            &[
                ("君", "名詞,代名詞,一般,*,*,*,君,キミ,キミ"),
                ("の", "助詞,連体化,*,*,*,*,の,ノ,ノ"),
                ("名", "名詞,一般,*,*,*,*,名,ナ,ナ"),
                ("は", "助詞,係助詞,*,*,*,*,は,ハ,ワ"),
            ],
        ),
        analysed(
            "未だにあなたのことを夢にみる",
            &[
                ("未だに", "副詞,一般,*,*,*,*,未だに,イマダニ,イマダニ"),
                ("あなた", "名詞,代名詞,一般,*,*,*,あなた,アナタ,アナタ"),
                ("の", "助詞,連体化,*,*,*,*,の,ノ,ノ"),
                ("こと", "名詞,非自立,一般,*,*,*,こと,コト,コト"),
                ("を", "助詞,格助詞,一般,*,*,*,を,ヲ,ヲ"),
                ("夢", "名詞,一般,*,*,*,*,夢,ユメ,ユメ"),
                ("に", "助詞,格助詞,一般,*,*,*,に,ニ,ニ"),
                ("みる", "動詞,自立,*,*,一段,基本形,みる,ミル,ミル"),
            ],
        ),
        analysed(
            "一人で歩いた道",
            &[
                ("一", "名詞,数,*,*,*,*,一,イチ,イチ"),
                ("人", "名詞,接尾,助数詞,*,*,*,人,ニン,ニン"),
                ("で", "助詞,格助詞,一般,*,*,*,で,デ,デ"),
                ("歩い", "動詞,自立,*,*,五段・カ行イ音便,連用タ接続,歩く,アルイ,アルイ"),
                ("た", "助動詞,*,*,*,特殊・タ,基本形,た,タ,タ"),
                ("道", "名詞,一般,*,*,*,*,道,ミチ,ミチ"),
            ],
        ),
        analysed(
            "言えずに隠してた",
            &[
                ("言え", "動詞,自立,*,*,一段,未然形,言える,イエ,イエ"),
                ("ず", "助動詞,*,*,*,特殊・ヌ,連用ニ接続,ぬ,ズ,ズ"),
                ("に", "助詞,格助詞,一般,*,*,*,に,ニ,ニ"),
                ("隠し", "動詞,自立,*,*,五段・サ行,連用形,隠す,カクシ,カクシ"),
                ("て", "助詞,接続助詞,*,*,*,*,て,テ,テ"),
                ("た", "助動詞,*,*,*,特殊・タ,基本形,た,タ,タ"),
            ],
        ),
        analysed(
            "明日へ",
            &[
                ("明日", "名詞,副詞可能,*,*,*,*,明日,アシタ,アシタ"),
                ("へ", "助詞,格助詞,一般,*,*,*,へ,ヘ,エ"),
            ],
        ),
        analysed(
            "愛してる",
            &[
                ("愛し", "動詞,自立,*,*,サ変・－スル,連用形,愛す,アイシ,アイシ"),
                ("てる", "動詞,非自立,*,*,一段,基本形,てる,テル,テル"),
            ],
        ),
        analysed(
            "僕は",
            &[
                ("僕", "名詞,代名詞,一般,*,*,*,僕,ボク,ボク"),
                ("は", "助詞,係助詞,*,*,*,*,は,ハ,ワ"),
            ],
        ),
        analysed(
            "君を",
            &[
                ("君", "名詞,代名詞,一般,*,*,*,君,キミ,キミ"),
                ("を", "助詞,格助詞,一般,*,*,*,を,ヲ,ヲ"),
            ],
        ),
    ]
}

#[test]
fn japanese_reads_particles_and_breaks_words() {
    let table = ipadic_table();
    for (ja, want) in [
        ("夢ならばどれほどよかったでしょう", "yume nara ba dorehodo yokatta deshou"),
        ("君の名は", "kimi no na wa"),
        ("未だにあなたのことを夢にみる", "imadani anata no koto o yume ni miru"),
        ("一人で歩いた道", "hitori de aruita michi"),
        ("言えずに隠してた", "iezu ni kakushiteta"),
        ("明日へ", "ashita e"),
    ] {
        assert_eq!(romanize_line(ja, true, &table), want, "{ja}");
    }
}

#[test]
fn mixed_scripts_get_a_space_at_the_seam() {
    let table = ipadic_table();
    assert_eq!(romanize_line("Baby愛してる", true, &table), "Baby aishiteru");
    assert_eq!(romanize_line("你好，世界", false, &table), "nǐ hǎo, shì jiè");
    assert_eq!(romanize_line("僕は、君を", true, &table), "boku wa, kimi o");
}
