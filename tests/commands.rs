use botzia::color::Colors;
use botzia::commands::category::{Mhw, Probability, Time as TimeCategory, DD};
use botzia::commands::color::{hexify, modulo, Color};
use botzia::commands::general::{Avatar, CommandStats, Poll, PollError, SpongeText};
use botzia::commands::levelinfo::{header, padder};
use botzia::commands::ltrange::{closest_breakpoint, constrain, formatter, LTRange};
use botzia::commands::mhw::{find_monster, Hzv, List, MonsterDetails, MonsterHitzones, MonsterInfo};
use botzia::commands::moderation::{Ban, Kick, MassMove, MoveRefusal, Purge, Refusal};
use botzia::commands::probability::{longest_string, pad_strings, transpose, verify_probability, HowLucky};
use botzia::commands::remindme::{formatter as amount_formatter, RemindMe, Time};
use botzia::commands::res::{ArmorPiece, Res, ResError};
use botzia::commands::snowflake::Snowflake;
use botzia::commands::time::{timezones, Convert};
use botzia::commands::trivia::{b64_decode, decode_question, ServiceReply, Trivia, TriviaCategory, TriviaQuestion};
use botzia::text::decimal_string;

/// The upgrade simulation as first written, with the float formula for the raise.
fn reference(resists: &[i32], fix_slot: Option<i64>) -> (i32, i32, i32, Vec<i32>) {
    let kept: Vec<i32> = resists.iter().copied().filter(|&r| r != 0).collect();
    let mut data = kept.clone();
    data.sort_by(|a, b| b.cmp(a));
    let lone = fix_slot.and_then(|slot| {
        let v = kept[slot as usize];
        data.iter().position(|&r| r == v)
    });
    let target = if data.len() == 3 { 35 } else if lone.is_some() { 23 } else { 29 };
    let (mut level, mut spent, mut primary) = (1, 0, 0);
    loop {
        let last = data[data.len() - 1] < target;
        let lone_needed = lone.map_or(false, |i| data[i] < 58);
        if !(last || lone_needed) {
            break;
        }
        let mut done = false;
        for i in 0..data.len() {
            let t = if Some(i) == lone { 58 } else { target };
            if (data[i] < 22 || (level + 1) % 10 == 0) && data[i] < t {
                spent += 1;
                let up = if data[i] < 22 { std::cmp::max((0.15 * data[i].abs() as f32).trunc() as i32, 1) } else { 1 };
                data[i] += up;
                if data[i] == 0 {
                    data[i] = 1;
                }
                done = true;
                break;
            }
        }
        if !done {
            primary += 1;
        }
        level += 1;
    }
    (level, spent, primary, data)
}

fn check_res(resists: &[i32], fix_slot: Option<i64>) {
    let piece = Res::plan(&resists.to_vec(), fix_slot).ok().unwrap();
    let (level, spent, primary, data) = reference(resists, fix_slot);
    assert_eq!(piece.level, level);
    assert_eq!(piece.levels_spent, spent);
    assert_eq!(piece.into_primary, primary);
    assert_eq!(piece.data, data);
}

#[test]
fn res_matches_the_float_simulation() {
    check_res(&[10, 20, 30], None);
    check_res(&[-10, 5, 22, 13], None);
    check_res(&[0, -35, -35, -35, 35], None);
    check_res(&[12, 8, 3, 30], Some(1));
    check_res(&[12, 8, 3, 30], Some(3));
    check_res(&[-7, 7, -20, 1], Some(2));
}

#[test]
fn res_upgrade_amount_matches_fifteen_percent() {
    for r in -35..60 {
        let expected = if r < 22 { std::cmp::max((0.15 * (r as i32).abs() as f32).trunc() as i32, 1) } else { 1 };
        assert_eq!(ArmorPiece::get_up_amount(r), expected);
    }
}

#[test]
fn res_errors() {
    assert_eq!(Res::plan(&vec![36, 1, 1], None).err(), Some(ResError::UnreasonableValue));
    assert_eq!(Res::plan(&vec![1, 1, 0], None).err(), Some(ResError::WrongCount));
    assert_eq!(Res::plan(&vec![1, 1, 1, 1, 1], None).err(), Some(ResError::WrongCount));
    assert_eq!(Res::plan(&vec![1, 1, 1], Some(1)).err(), Some(ResError::SlotWithThreeResistances));
    assert_eq!(Res::plan(&vec![1, 1, 1, 1], Some(0)).err(), Some(ResError::InvalidSlot));
    assert_eq!(Res::plan(&vec![1, 1, 1, 1], Some(4)).err(), Some(ResError::InvalidSlot));
}

#[test]
fn armor_piece_rules() {
    let piece = ArmorPiece::new(vec![30, 20, 10, 5], Some(2));
    assert_eq!(piece.target_level, 23);
    assert_eq!(piece.get_target_level(2), 58);
    assert_eq!(piece.get_target_level(0), 23);
    assert!(piece.res_upgrade_needed());
    assert!(!piece.can_upgrade(0));
    assert!(piece.can_upgrade(1));
    assert_eq!(ArmorPiece::new(vec![1, 2, 3], None).target_level, 35);
    assert_eq!(ArmorPiece::new(vec![1, 2, 3, 4], None).target_level, 29);
    let mut p = ArmorPiece::new(vec![30, 30, 21], None);
    p.upgrade();
    assert_eq!(p.data, vec![30, 30, 24]);
    assert_eq!(p.levels_spent, 1);
    let mut q = ArmorPiece::new(vec![36, 36, 36], None);
    assert!(!q.res_upgrade_needed());
    q.upgrade();
    assert_eq!(q.into_primary, 1);
}

#[test]
fn ltrange_table() {
    let normal = LTRange::normal_breakpoints();
    let upped = LTRange::upgraded_breakpoints();
    assert_eq!(LTRange::table(0, &normal, 6).unwrap(), "```0 - 6\n1 - 7\n2 - 8\n4 - 9\n6 - 10```");
    assert_eq!(LTRange::table(9991, &normal, 6), None);
    assert_eq!(
        LTRange::table(9954, &upped, 17).unwrap(),
        "```9198 - 108\n9446 - 109\n9698 - 110\n9954 - 111```".replace("```9198", "```8955 - 107\n9198")
    );
    assert_eq!(closest_breakpoint(&50, &normal, 2), 13);
    assert_eq!(closest_breakpoint(&0, &normal, 2), 2);
    assert_eq!(formatter(&normal, 13, &5, 6), "```35 - 17\n43 - 18\n51 - 19\n60 - 20\n70 - 21```");
    assert_eq!(constrain(5, 0, 3), 3);
    assert_eq!(constrain(-1, 0, 3), 0);
    assert_eq!(constrain(2, 5, 3), 5);
}

#[test]
fn color_channels_wrap_at_256() {
    assert_eq!(Color::resulting_color(-1, None, None), (255, 255, 255, 0xffffff));
    assert_eq!(Color::resulting_color(300, Some(0), Some(-256)), (44, 0, 0, 44 * 65536));
    assert_eq!(modulo(-7, 256), 249);
    assert_eq!(modulo(512, 256), 0);
    assert_eq!(hexify(1, 2, 3), 0x010203);
    assert_eq!(Colors::Red.value(), 0xcc0000);
    assert_eq!(Colors::Blue.value(), 0x0066cc);
}

#[test]
fn snowflake_to_time() {
    let s = Snowflake::parse("175928847299117063").unwrap();
    assert_eq!(s, 175928847299117063);
    assert_eq!(Snowflake::unix_seconds(s), 1462015105);
    assert_eq!(Snowflake::parse(""), None);
    assert_eq!(Snowflake::parse("12a"), None);
    assert_eq!(Snowflake::parse("99999999999999999999"), None);
    assert_eq!(Snowflake::parse("123456789012345678901"), None);
    assert_eq!(Snowflake::parse("18446744073709551615"), Some(u64::MAX));
}

#[test]
fn level_table_rows() {
    assert_eq!(padder("Common", 1, 2, 3), format!("{: <14}{: <9}{: <9}{: <5}", "Common", 1, 2, 3));
    assert_eq!(padder("Supreme", -12, 200, 7777777), format!("{: <14}{: <9}{: <9}{: <5}", "Supreme", -12, 200, 7777777));
    assert_eq!(header(), format!("{: <14}{: <9}{: <9}{: <5}", "Name", "Weapons", "Armor", "Pets"));
}

#[test]
fn timer_parsing() {
    assert_eq!(Time::from_args("2d, 1 hour 15 mins"), Some(Time { days: 2, hours: 1, minutes: 15 }));
    assert_eq!(Time::from_args("  5 MINUTES "), Some(Time { days: 0, hours: 0, minutes: 5 }));
    assert_eq!(Time::from_args("3 days,,  4h"), Some(Time { days: 3, hours: 4, minutes: 0 }));
    assert_eq!(Time::from_args("1d 1d"), Some(Time { days: 2, hours: 0, minutes: 0 }));
    assert_eq!(Time::from_args("1 hours"), Some(Time { days: 0, hours: 1, minutes: 0 }));
    assert_eq!(Time::from_args("1h30m"), None);
    assert_eq!(Time::from_args("10"), None);
    assert_eq!(Time::from_args("5  m"), None);
    assert_eq!(Time::from_args(""), None);
    assert_eq!(Time::from_args("2 weeks"), None);
    assert_eq!(Time::from_args("1d,"), None);
    assert_eq!(Time::from_args("99999999999d"), None);
    assert_eq!(Time::from_args("2147483647m"), Some(Time { days: 0, hours: 0, minutes: 2147483647 }));
    assert_eq!(Time::from_args("2147483647m 1m"), None);
}

#[test]
fn time_in_words() {
    assert_eq!(Time { days: 2, hours: 1, minutes: 15 }.to_text(), "2 days, 1 hour and 15 minutes");
    assert_eq!(Time { days: 0, hours: 0, minutes: 1 }.to_text(), "1 minute");
    assert_eq!(Time { days: 1, hours: 0, minutes: 5 }.to_text(), "1 day and 5 minutes");
    assert_eq!(Time { days: 0, hours: 3, minutes: 0 }.to_text(), "3 hours");
    assert_eq!(Time::zero().to_text(), "");
    assert_eq!(Time { days: 1, hours: 2, minutes: 3 }.duration_secs(), 93780);
    assert_eq!(amount_formatter(1, "days").as_deref(), Some("1 day"));
    assert_eq!(amount_formatter(-2, "hours").as_deref(), Some("-2 hours"));
    assert_eq!(amount_formatter(0, "days"), None);
    let mut t = Time::zero();
    t.add_time(3, "hours");
    t.add_time(2, "m");
    t.add_time(4, "days");
    assert_eq!(t, Time { days: 4, hours: 3, minutes: 2 });
}

#[test]
fn reminder_request_mentions_requester_first() {
    let found = RemindMe::mentions_in("hey <@123456789012345678> and <@!1234567890123456789>, not <@12>");
    assert_eq!(found, vec![123456789012345678, 1234567890123456789]);
    assert!(RemindMe::mentions_in("<@12345678901234567890>").is_empty());
    let req = RemindMe::request(1_000, &Time { days: 0, hours: 0, minutes: 1 }, 5, Some("<@123456789012345678>"));
    assert_eq!(req.due_at, 61_000);
    assert_eq!(req.mentions, vec![5, 123456789012345678]);
    let plain = RemindMe::request(0, &Time { days: 1, hours: 0, minutes: 0 }, 9, None);
    assert_eq!(plain.due_at, 86_400_000);
    assert_eq!(plain.mentions, vec![9]);
}

#[test]
fn probability_reading() {
    assert_eq!(verify_probability("0.25"), Some((25, 100)));
    assert_eq!(verify_probability("0.1"), Some((1, 10)));
    assert_eq!(verify_probability("0.0"), None);
    assert_eq!(verify_probability("1/3"), Some((1, 3)));
    assert_eq!(verify_probability("3/3"), None);
    assert_eq!(verify_probability("2/1"), None);
    assert_eq!(verify_probability("01/3"), None);
    assert_eq!(verify_probability("1/03"), None);
    assert_eq!(verify_probability("1/"), None);
    assert_eq!(verify_probability("abc"), None);
    assert!(HowLucky::counts_valid(4, 3));
    assert!(!HowLucky::counts_valid(3, 4));
}

#[test]
fn table_layout() {
    let items = vec!["a".to_string(), "bbb".to_string(), "".to_string()];
    assert_eq!(longest_string(&items), 3);
    assert_eq!(pad_strings(&items), vec!["  a", "bbb", "   "]);
    let m = vec![
        vec!["a".to_string(), "b".to_string()],
        vec!["c".to_string(), "d".to_string()],
        vec!["e".to_string(), "f".to_string()],
    ];
    assert_eq!(transpose(&m), vec![vec!["a", "c", "e"], vec!["b", "d", "f"]]);
}

fn hitzones() -> MonsterHitzones {
    let s = || "0".to_string();
    MonsterHitzones { slash: s(), blunt: s(), shot: s(), fire: s(), water: s(), thunder: s(), ice: s(), dragon: s() }
}

fn monster(name: &str, aliases: &[&str], hr: bool) -> MonsterInfo {
    MonsterInfo {
        name: name.to_string(),
        details: MonsterDetails {
            aliases: aliases.iter().map(|a| a.to_string()).collect(),
            title: name.to_uppercase(),
            description: String::new(),
            hzv: hitzones(),
            hzv_hr: if hr { Some(hitzones()) } else { None },
            species: String::new(),
            icon_filepath: String::new(),
            hzv_filepath: String::new(),
            hzv_filepath_hr: None,
            threat_level: None,
        },
    }
}

#[test]
fn monster_lookup() {
    let monsters = vec![
        monster("rathalos", &["rath"], true),
        monster("nergigante", &["nerg"], false),
        monster("kushaladaora", &["kush", "kd"], false),
    ];
    assert_eq!(find_monster(&monsters, "rath"), Some(0));
    assert_eq!(find_monster(&monsters, "ner"), Some(1));
    assert_eq!(find_monster(&monsters, "kd"), Some(2));
    assert_eq!(find_monster(&monsters, "xyz"), None);
    assert_eq!(Hzv::matching(&monsters, "ra"), vec![0, 2]);
    assert_eq!(Hzv::matching(&monsters, "g"), vec![1]);
    assert_eq!(Hzv::matching(&monsters, "kd"), vec![2]);
    assert!(Hzv::matching(&monsters, "zz").is_empty());
    assert!(Hzv::shows_high_rank(&monsters[0].details, true));
    assert!(!Hzv::shows_high_rank(&monsters[1].details, true));
    assert!(!Hzv::shows_high_rank(&monsters[0].details, false));
    assert_eq!(List::page_count(0), 0);
    assert_eq!(List::page_count(20), 1);
    assert_eq!(List::page_count(41), 3);
}

#[test]
fn time_zones() {
    assert_eq!(timezones().len(), 5);
    assert_eq!(Convert::offset_for("CEST"), Some("+02:00"));
    assert_eq!(Convert::offset_for("ACDT"), Some("+10:30"));
    assert_eq!(Convert::offset_for("PST"), None);
}

#[test]
fn categories_list_their_subcommands() {
    assert_eq!(DD::subcommands(), vec!["color", "levelinfo", "ltrange", "quote", "res"]);
    assert_eq!(Mhw::subcommands(), vec!["hzv", "list"]);
    assert_eq!(Probability::subcommands(), vec!["howlucky", "howmanyruns"]);
    assert_eq!(TimeCategory::subcommands(), vec!["convert", "timezone"]);
}

#[test]
fn moderation_checks() {
    assert_eq!(Ban::audit_reason("mod", Some("spam")), "spam [Issued by mod]");
    assert_eq!(Ban::audit_reason("mod", None), "[Issued by mod]");
    assert_eq!(Kick::audit_reason("m", None, Some("r")), "r [Issued by m]");
    assert_eq!(Kick::audit_reason("m", Some("a"), Some("r")), "a [Issued by m]");
    assert_eq!(Ban::refusal(true, true, false, true), Some(Refusal::TargetIsModerator));
    assert_eq!(Ban::refusal(false, false, true, true), Some(Refusal::BotLacksPermission));
    assert_eq!(Kick::refusal(true, false, false, false), Some(Refusal::MemberNotFound));
    assert_eq!(Kick::refusal(true, true, true, false), Some(Refusal::TargetIsBot));
    assert_eq!(Ban::refusal(true, true, false, false), None);
    assert_eq!(MassMove::refusal(None, 1, true, 3), Some(MoveRefusal::UnknownSource));
    assert_eq!(MassMove::refusal(Some(1), 1, false, 3), Some(MoveRefusal::BotLacksPermission));
    assert_eq!(MassMove::refusal(Some(1), 1, true, 3), Some(MoveRefusal::SameChannel));
    assert_eq!(MassMove::refusal(Some(2), 1, true, 0), Some(MoveRefusal::NobodyToMove));
    assert_eq!(MassMove::refusal(Some(2), 1, true, 3), None);
    assert_eq!(Purge::fetch_limit(1), None);
    assert_eq!(Purge::fetch_limit(2), Some(2));
    assert_eq!(Purge::fetch_limit(100), Some(100));
    assert_eq!(Purge::fetch_limit(101), None);
}

#[test]
fn sponge_case_follows_the_draws() {
    assert_eq!(SpongeText::sponge_case("ab cd", &vec![true, false, true, true]), "Ab CD");
    assert_eq!(SpongeText::sponge_case("abcd", &vec![true, true, false, false]), "ABcd");
    assert_eq!(SpongeText::sponge_case("hello", &vec![true; 5]), "HElLO");
    assert_eq!(SpongeText::sponge_case("", &vec![]), "");
}

#[test]
fn random_sponge_case_never_has_three_alike() {
    for _ in 0..50 {
        let input = "sponge case text with words";
        let out = SpongeText::randomize_case(input);
        assert_eq!(out.to_lowercase(), input);
        let cases: Vec<bool> = out.chars().filter(|c| *c != ' ').map(|c| c.is_uppercase()).collect();
        for w in cases.windows(3) {
            assert!(!(w[0] == w[1] && w[1] == w[2]));
        }
    }
}

#[test]
fn command_names_are_squeezed() {
    assert_eq!(CommandStats::sanitize("  dd   res\tnow "), "dd res now");
    assert_eq!(CommandStats::sanitize("poll"), "poll");
    assert_eq!(CommandStats::sanitize("   "), "");
}

#[test]
fn poll_options() {
    assert_eq!(Poll::options("a; b ;c").ok().unwrap(), vec!["a", "b", "c"]);
    assert_eq!(Poll::options(";").ok().unwrap(), vec!["", ""]);
    assert_eq!(Poll::options("only").err(), Some(PollError::OptionCount));
    assert_eq!(Poll::options(&";".repeat(20)).err(), Some(PollError::OptionCount));
    assert_eq!(Poll::options(&";".repeat(19)).ok().unwrap().len(), 20);
    assert_eq!(Avatar::hexify(255, 0, 128), 0xff0080);
}

#[test]
fn trivia_texts_decode_from_base64() {
    assert_eq!(b64_decode("aGVsbG8="), Some("hello".to_string()));
    assert_eq!(b64_decode("!!"), None);
    assert_eq!(b64_decode("/w=="), None);
    let q = TriviaQuestion {
        category: "U2NpZW5jZQ==".to_string(),
        kind: "Ym9vbGVhbg==".to_string(),
        difficulty: "ZWFzeQ==".to_string(),
        question: "SXMgd2F0ZXIgd2V0Pw==".to_string(),
        correct_answer: "VHJ1ZQ==".to_string(),
        incorrect_answers: vec!["RmFsc2U=".to_string()],
    };
    let d = decode_question(&q).unwrap();
    assert_eq!(d.category, "Science");
    assert_eq!(d.kind, "boolean");
    assert_eq!(d.difficulty, "easy");
    assert_eq!(d.question, "Is water wet?");
    assert_eq!(d.correct_answer, "True");
    assert_eq!(d.incorrect_answers, vec!["False"]);
    let mut bad = q;
    bad.incorrect_answers.push("***".to_string());
    assert!(decode_question(&bad).is_none());
}

#[test]
fn trivia_difficulty_and_categories() {
    assert_eq!(Trivia::difficulty("medium"), Some(("A Medium", Colors::Orange)));
    assert_eq!(Trivia::difficulty("easy"), Some(("An Easy", Colors::Green)));
    assert_eq!(Trivia::difficulty("hard"), Some(("A Hard", Colors::Red)));
    assert_eq!(Trivia::difficulty("x"), None);
    let cats = vec![
        TriviaCategory { name: "General Knowledge".to_string(), id: 9 },
        TriviaCategory { name: "Science: Computers".to_string(), id: 18 },
        TriviaCategory { name: "Science & Nature".to_string(), id: 17 },
    ];
    assert_eq!(Trivia::matching_categories(&cats, "Science"), vec![1, 2]);
    for _ in 0..20 {
        let id = Trivia::pick_category(&cats, "Science").unwrap();
        assert!(id == 18 || id == 17);
    }
    assert_eq!(Trivia::pick_category(&cats, "Art"), None);
}

#[test]
fn decimal_spelling() {
    assert_eq!(decimal_string(0), "0");
    assert_eq!(decimal_string(1234567890), "1234567890");
    assert_eq!(decimal_string(u64::MAX), "18446744073709551615");
}

#[test]
fn avatar_dominant_color_comes_from_the_palette() {
    let mut img = image::RgbaImage::new(4, 4);
    for (x, _, p) in img.enumerate_pixels_mut() {
        *p = if x < 3 { image::Rgba([200, 30, 40, 255]) } else { image::Rgba([10, 10, 220, 255]) };
    }
    let mut png = Vec::new();
    image::DynamicImage::ImageRgba8(img.clone())
        .write_to(&mut std::io::Cursor::new(&mut png), image::ImageOutputFormat::Png)
        .unwrap();
    let palette: Vec<(u8, u8, u8)> = color_thief::get_palette(img.as_raw(), color_thief::ColorFormat::Rgba, 1, 5)
        .unwrap()
        .iter()
        .map(|c| (c.r, c.g, c.b))
        .collect();
    let expected = Avatar::dominant_of_palette(&palette);
    assert!(expected.is_some());
    assert_eq!(Avatar::dominant_color(&png), expected);
    assert_eq!(Avatar::dominant_color(&vec![1, 2, 3]), None);
    assert_eq!(Avatar::dominant_of_palette(&vec![(1, 2, 3), (9, 9, 9)]), Some(0x010203));
    assert_eq!(Avatar::dominant_of_palette(&vec![]), None);
}

#[test]
fn trivia_service_codes() {
    assert_eq!(Trivia::reply_for(0), ServiceReply::Question);
    assert_eq!(Trivia::reply_for(1), ServiceReply::NoQuestion);
    assert_eq!(Trivia::reply_for(2), ServiceReply::InvalidArgument);
    assert_eq!(Trivia::reply_for(3), ServiceReply::RenewToken);
    assert_eq!(Trivia::reply_for(4), ServiceReply::RenewToken);
    assert_eq!(Trivia::reply_for(5), ServiceReply::Unknown);
}
