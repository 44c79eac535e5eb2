use ai4edu::commands::llm::{GenerateQuestionsRequest, Question};
use ai4edu::parser::{parse_questions, parse_questions_at};

fn request(topic: &str, difficulty: &str) -> GenerateQuestionsRequest {
    GenerateQuestionsRequest {
        api_key: "SECRET-REDACTED".to_string(),
        api_base: "https://api.example.com/v1".to_string(),
        model: "gpt-4".to_string(),
        topic: topic.to_string(),
        difficulty: difficulty.to_string(),
        count: 2,
    }
}

fn parse(content: &str) -> Vec<Question> {
    parse_questions_at(content, &request("derivatives", "medium"), 1700000000000)
}

#[test]
fn one_block_with_three_sections() {
    let questions = parse("【第1题】\n题目：求导数\n解答：步骤如下\n答案：x^2");
    assert_eq!(questions.len(), 1);
    assert_eq!(questions[0].content, "求导数");
    assert_eq!(questions[0].explanation, "步骤如下");
    assert_eq!(questions[0].answer, "x^2");
}

#[test]
fn text_without_structure_is_one_question() {
    let questions = parse("随便写的内容没有结构");
    assert_eq!(questions.len(), 1);
    assert_eq!(questions[0].content, "随便写的内容没有结构");
}

#[test]
fn text_without_structure_is_handed_back_whole() {
    let questions = parse("随便写的内容没有结构");
    assert_eq!(questions.len(), 1);
    assert_eq!(questions[0].content, "随便写的内容没有结构");
    assert_eq!(questions[0].explanation, "随便写的内容没有结构");
    assert_eq!(questions[0].answer, "详见上述内容");
    assert_eq!(questions[0].id, "q-1700000000000-0");
    let short = parse("abc");
    assert_eq!(short.len(), 1);
    assert_eq!(short[0].content, "abc");
    assert_eq!(short[0].explanation, "abc");
    let lines = parse("  第一行 \n\n第二行\n---\n");
    assert_eq!(lines.len(), 1);
    assert_eq!(lines[0].content, "  第一行 \n\n第二行\n---\n");
    assert_eq!(lines[0].explanation, "  第一行 \n\n第二行\n---\n");
}

#[test]
fn a_reply_that_gathers_no_statement_is_handed_back_whole() {
    let questions = parse("答案：42");
    assert_eq!(questions.len(), 1);
    assert_eq!(questions[0].content, "答案：42");
    assert_eq!(questions[0].explanation, "答案：42");
    assert_eq!(questions[0].answer, "详见上述内容");
    assert_eq!(questions[0].id, "q-1700000000000-0");
    assert_eq!(questions[0].difficulty, "medium");
    assert_eq!(questions[0].question_type, "essay");
    assert_eq!(questions[0].knowledge_points, vec!["derivatives".to_string()]);
    assert!(!questions[0].has_graph);
    assert!(questions[0].latex_formulas.is_empty());
}

#[test]
fn a_reply_handed_back_whole_keeps_its_white_space_and_formulas() {
    let raw = "  解答：因为 $x>0$ \n---\n";
    let questions = parse(raw);
    assert_eq!(questions.len(), 1);
    assert_eq!(questions[0].content, raw);
    assert_eq!(questions[0].explanation, raw);
    assert_eq!(questions[0].latex_formulas, vec!["x>0".to_string()]);
}

#[test]
fn an_empty_reply_is_one_empty_question() {
    let questions = parse("");
    assert_eq!(questions.len(), 1);
    assert_eq!(questions[0].content, "");
    assert_eq!(questions[0].explanation, "");
    let blank = parse(" \n\t");
    assert_eq!(blank.len(), 1);
    assert_eq!(blank[0].content, " \n\t");
}

#[test]
fn lines_in_front_of_the_first_section_are_passed_over() {
    let questions = parse("前言\n解答：乙\n续乙\n题目：甲");
    assert_eq!(questions.len(), 1);
    assert_eq!(questions[0].content, "甲");
    assert_eq!(questions[0].explanation, "乙\n续乙");
    assert_eq!(questions[0].answer, "详见解答");
}

#[test]
fn a_block_without_answer_and_explanation_gets_the_placeholders() {
    let questions = parse("【第1题】\n题目：求 $f(x)=x^3$ 的导数");
    assert_eq!(questions.len(), 1);
    assert_eq!(questions[0].content, "求 $f(x)=x^3$ 的导数");
    assert_eq!(questions[0].answer, "详见解答");
    assert_eq!(questions[0].explanation, "详见上述内容");
    assert_eq!(questions[0].latex_formulas, vec!["f(x)=x^3".to_string()]);
}

#[test]
fn blocks_in_the_layout_of_the_prompt_are_read_back_in_order() {
    let reply = "【第1题】\n题目： 求 $x^2$ 的导数 \n\n解答：用幂法则\n\n答案：$2x$\n\n---\n\n【第2题】\n题目：求 $\\sin x$ 的导数\n\n解答：基本公式\n\n答案：$\\cos x$\n\n---\n\n";
    let questions = parse_questions_at(reply, &request("derivatives", "hard"), 5);
    assert_eq!(questions.len(), 2);
    assert_eq!(questions[0].id, "q-5-0");
    assert_eq!(questions[0].content, "求 $x^2$ 的导数");
    assert_eq!(questions[0].explanation, "用幂法则");
    assert_eq!(questions[0].answer, "$2x$");
    assert_eq!(questions[0].latex_formulas, vec!["x^2".to_string()]);
    assert_eq!(questions[1].id, "q-5-1");
    assert_eq!(questions[1].content, "求 $\\sin x$ 的导数");
    assert_eq!(questions[1].explanation, "基本公式");
    assert_eq!(questions[1].answer, "$\\cos x$");
    assert_eq!(questions[1].latex_formulas, vec!["\\sin x".to_string()]);
    for q in &questions {
        assert_eq!(q.difficulty, "hard");
        assert_eq!(q.question_type, "essay");
        assert_eq!(q.knowledge_points, vec!["derivatives".to_string()]);
        assert!(!q.has_graph);
    }
}

#[test]
fn lines_without_a_prefix_go_on_with_the_open_section() {
    let reply = "【第1题】\n题目：已知函数\n  $f(x)=x^2$  \n求最小值\n解答：第一步\n第二步\n答案：0\n当 $x=0$ 时";
    let questions = parse(reply);
    assert_eq!(questions.len(), 1);
    assert_eq!(questions[0].content, "已知函数\n$f(x)=x^2$\n求最小值");
    assert_eq!(questions[0].explanation, "第一步\n第二步");
    assert_eq!(questions[0].answer, "0\n当 $x=0$ 时");
    assert_eq!(questions[0].latex_formulas, vec!["f(x)=x^2".to_string()]);
}

#[test]
fn a_later_prefix_opens_its_section_anew() {
    let questions = parse("【第1题】\n题目：旧的\n题目：新的\n答案：一\n答案：二");
    assert_eq!(questions.len(), 1);
    assert_eq!(questions[0].content, "新的");
    assert_eq!(questions[0].answer, "二");
}

#[test]
fn a_prefix_is_taken_off_once() {
    let questions = parse("【第1题】\n题目：题目：求导数");
    assert_eq!(questions.len(), 1);
    assert_eq!(questions[0].content, "题目：求导数");
}

#[test]
fn what_is_left_of_a_heading_is_never_gathered() {
    let questions = parse("【第12题】\n题目：求和");
    assert_eq!(questions.len(), 1);
    assert_eq!(questions[0].content, "求和");
    let continued = parse("【第12题】\n说明\n题目：求和\n其中 $n=3$");
    assert_eq!(continued.len(), 1);
    assert_eq!(continued[0].content, "求和\n其中 $n=3$");
}

#[test]
fn a_headed_block_with_an_answer_and_no_statement_is_dropped() {
    let raw = "【第1题】\n答案：42";
    let mut request = request("derivatives", "basic");
    request.count = 1;
    let questions = parse_questions_at(raw, &request, 1700000000000);
    assert_eq!(questions.len(), 1);
    assert_eq!(questions[0].content, raw);
    assert_eq!(questions[0].explanation, raw);
    assert_eq!(questions[0].answer, "详见上述内容");
    assert_eq!(questions[0].id, "q-1700000000000-0");
    let both = parse("【第12题】\n解答：乙\n答案：3");
    assert_eq!(both.len(), 1);
    assert_eq!(both[0].content, "【第12题】\n解答：乙\n答案：3");
    assert_eq!(both[0].explanation, "【第12题】\n解答：乙\n答案：3");
}

#[test]
fn a_block_without_a_statement_is_dropped() {
    let reply = "【第题】\n答案：只有答案\n【第2题】\n题目：有题目\n答案：有答案";
    let questions = parse(reply);
    assert_eq!(questions.len(), 1);
    assert_eq!(questions[0].content, "有题目");
    assert_eq!(questions[0].answer, "有答案");
    // The dropped block still counts: the question comes from the second block.
    assert_eq!(questions[0].id, "q-1700000000000-1");
}

#[test]
fn text_before_the_first_marker_is_a_block_that_gives_nothing() {
    let reply = "好的，以下是题目。\n【第1题】\n题目：求导数\n答案：1";
    let questions = parse(reply);
    assert_eq!(questions.len(), 1);
    assert_eq!(questions[0].content, "求导数");
    assert_eq!(questions[0].answer, "1");
    // The text in front is a block all the same, and counts.
    assert_eq!(questions[0].id, "q-1700000000000-1");
}

#[test]
fn a_section_may_hold_the_character_that_opens_a_marker() {
    let reply = "【第1题】\n题目：集合【A】与【B】\n解答：见【注】\n答案：【\n【第2题】\n题目：乙\n解答：丙\n答案：丁\n";
    let questions = parse(reply);
    assert_eq!(questions.len(), 2);
    assert_eq!(questions[0].content, "集合【A】与【B】");
    assert_eq!(questions[0].explanation, "见【注】");
    assert_eq!(questions[0].answer, "【");
    assert_eq!(questions[1].content, "乙");
    assert_eq!(questions[1].explanation, "丙");
    assert_eq!(questions[1].answer, "丁");
}

#[test]
fn blocks_written_one_after_the_other_are_read_back() {
    let sections = [("  甲一 ", "乙一", "丙一\t"), ("甲二", " 乙二", "丙二"), ("甲三", "乙三 ", "丙三")];
    let mut reply = String::new();
    for (i, (s, e, a)) in sections.iter().enumerate() {
        reply.push_str(&format!("【第{}题】\n题目：{}\n解答：{}\n答案：{}\n", i + 1, s, e, a));
    }
    let questions = parse(&reply);
    assert_eq!(questions.len(), 3);
    for (i, (s, e, a)) in sections.iter().enumerate() {
        assert_eq!(questions[i].content, s.trim());
        assert_eq!(questions[i].explanation, e.trim());
        assert_eq!(questions[i].answer, a.trim());
        assert_eq!(questions[i].id, format!("q-1700000000000-{}", i));
    }
}

#[test]
fn separators_and_heading_ends_are_passed_over() {
    let reply = "【第\n题】\n题目：甲\n---\n--- 分隔\n题】残留\n乙\n\n   \n丙";
    let questions = parse(reply);
    assert_eq!(questions.len(), 1);
    assert_eq!(questions[0].content, "甲\n乙\n丙");
}

#[test]
fn carriage_returns_at_line_ends_do_not_count() {
    let questions = parse("【第1题】\r\n题目：求导数\r\n解答：步骤\r\n答案：x\r\n");
    assert_eq!(questions.len(), 1);
    assert_eq!(questions[0].content, "求导数");
    assert_eq!(questions[0].explanation, "步骤");
    assert_eq!(questions[0].answer, "x");
}

#[test]
fn blank_pieces_between_markers_are_no_blocks() {
    let reply = "【第 \n 【第1题】\n题目：甲\n【第\n【第2题】\n题目：乙";
    let questions = parse(reply);
    assert_eq!(questions.len(), 2);
    assert_eq!(questions[0].content, "甲");
    assert_eq!(questions[0].id, "q-1700000000000-0");
    assert_eq!(questions[1].content, "乙");
    assert_eq!(questions[1].id, "q-1700000000000-1");
}

#[test]
fn identifiers_differ_within_one_reply() {
    let mut reply = String::new();
    for k in 1..=12 {
        reply.push_str(&format!("【第{}题】\n题目：第{}问\n答案：{}\n---\n", k, k, k));
    }
    let questions = parse_questions_at(&reply, &request("sequences", "basic"), -7);
    assert_eq!(questions.len(), 12);
    for (k, q) in questions.iter().enumerate() {
        assert_eq!(q.id, format!("q--7-{}", k));
        assert_eq!(q.content, format!("第{}问", k + 1));
        assert_eq!(q.answer, format!("{}", k + 1));
    }
    for i in 0..questions.len() {
        for j in (i + 1)..questions.len() {
            assert_ne!(questions[i].id, questions[j].id);
        }
    }
}

#[test]
fn content_is_never_empty_for_a_reply_that_is_not() {
    for reply in [
        "x",
        " ",
        "【第",
        "【第1题】\n题目：\n答案：1",
        "题目：",
        "---",
        "【第1题】\n题目：甲\n【第2题】\n题目：",
    ] {
        let questions = parse(reply);
        assert!(!questions.is_empty());
        for q in &questions {
            assert!(!q.content.is_empty(), "{:?}", reply);
        }
    }
}

#[test]
fn difficulty_and_topic_are_copied_as_they_are() {
    let questions = parse_questions_at("题目：甲", &request("没有的主题", "Extreme!"), 0);
    assert_eq!(questions[0].difficulty, "Extreme!");
    assert_eq!(questions[0].knowledge_points, vec!["没有的主题".to_string()]);
    assert_eq!(questions[0].id, "q-0-0");
}

#[test]
fn the_stamp_is_written_in_decimal() {
    let low = parse_questions_at("题目：甲", &request("t", "d"), i64::MIN);
    assert_eq!(low[0].id, "q--9223372036854775808-0");
    let high = parse_questions_at("题目：甲", &request("t", "d"), i64::MAX);
    assert_eq!(high[0].id, "q-9223372036854775807-0");
}

#[test]
fn questions_are_stamped_with_the_time_of_the_call() {
    let questions = parse_questions(
        "【第1题】\n题目：甲\n【第2题】\n题目：乙",
        &request("functions", "basic"),
    );
    assert_eq!(questions.len(), 2);
    assert_eq!(questions[0].content, "甲");
    assert_eq!(questions[1].content, "乙");
    for (k, q) in questions.iter().enumerate() {
        let rest = q.id.strip_prefix("q-").unwrap();
        let (stamp, ordinal) = rest.rsplit_once('-').unwrap();
        assert_eq!(ordinal, k.to_string());
        let millis: i64 = stamp.parse().unwrap();
        // After 2020, as any clock that is set at all will say.
        assert!(millis > 1_577_836_800_000);
    }
    assert_ne!(questions[0].id, questions[1].id);
}

#[test]
fn blocks_are_read_back_whatever_stands_around_their_sections() {
    let reply = "【第一题】（10分）\n请认真作答\n题目：  甲  \n---\n解答：乙\n\n \n答案：丙\n题】\n【第二题】题目：不算\n题目：丁\n解答：戊\n答案：己";
    let questions = parse(reply);
    assert_eq!(questions.len(), 2);
    assert_eq!(questions[0].content, "甲");
    assert_eq!(questions[0].explanation, "乙");
    assert_eq!(questions[0].answer, "丙");
    assert_eq!(questions[1].content, "丁");
    assert_eq!(questions[1].explanation, "戊");
    assert_eq!(questions[1].answer, "己");
}

#[test]
fn white_space_around_a_block_does_not_count() {
    let tight = parse("题目：甲\n解答：乙\n答案：丙");
    let padded = parse(" \n\t\n  题目：甲\n解答：乙\n答案：丙  \n \n");
    assert_eq!(padded.len(), 1);
    assert_eq!(padded[0].content, tight[0].content);
    assert_eq!(padded[0].explanation, tight[0].explanation);
    assert_eq!(padded[0].answer, tight[0].answer);
}

#[test]
fn the_block_that_the_prompt_shows_is_read_back() {
    let prompt = ai4edu::prompt::build_question_prompt("functions", "basic", 2);
    let shown = &prompt[prompt.find("【第1题】").unwrap()..];
    let questions = parse(shown);
    assert_eq!(questions.len(), 1);
    assert_eq!(questions[0].content, "（题目内容，使用LaTeX公式）");
    assert_eq!(questions[0].explanation, "（详细解题步骤）");
    assert_eq!(questions[0].answer, "（最终答案）");
}
