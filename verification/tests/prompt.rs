use ai4edu::prompt::build_question_prompt;
use ai4edu::vocabulary::{describe_difficulty, name_topic, reads};

fn chars(s: &str) -> Vec<char> {
    s.chars().collect()
}

fn text(v: &Vec<char>) -> String {
    v.iter().collect()
}

fn expected_prompt(topic_name: &str, count: i32, description: &str, difficulty: &str) -> String {
    format!(
        "你是高中数学特级教师，请为{}出{}道{}。\n\n要求：\n1. 题目符合高考命题风格，难度为{}\n2. 每道题都要有完整的题目描述\n3. 提供详细的解答过程和答案\n4. 使用LaTeX格式编写数学公式（用$包裹）\n5. 题目要有创新性，不要照搬教材例题\n\n请按以下格式输出：\n\n【第1题】\n题目：（题目内容，使用LaTeX公式）\n\n解答：（详细解题步骤）\n\n答案：（最终答案）\n\n---\n\n【第2题】\n...\n\n以此类推，共{}道题。",
        topic_name, count, description, difficulty, count
    )
}

#[test]
fn prompt_for_a_known_topic_and_difficulty() {
    assert_eq!(
        build_question_prompt("derivatives", "hard", 3),
        expected_prompt(
            "导数（导数计算、单调性、极值、不等式证明）",
            3,
            "困难题：多知识点综合，需要构造、转化，计算量大或思维跳跃",
            "hard"
        )
    );
    assert_eq!(
        build_question_prompt("functions", "basic", 10),
        expected_prompt(
            "函数（函数性质、图像、应用）",
            10,
            "基础题：直接考查公式定理，计算量小，单一步骤可解",
            "basic"
        )
    );
    assert_eq!(
        build_question_prompt("probability", "medium", 1),
        expected_prompt(
            "概率统计（概率计算、分布、统计）",
            1,
            "中档题：2-3个知识点结合，需要一定技巧，计算量适中",
            "medium"
        )
    );
}

#[test]
fn unknown_codes_are_not_refused() {
    assert_eq!(
        build_question_prompt("vectors", "extreme", 2),
        expected_prompt("vectors", 2, "中档题", "extreme")
    );
    assert_eq!(build_question_prompt("", "", 0), expected_prompt("", 0, "中档题", ""));
}

#[test]
fn a_negative_count_is_written_with_its_sign() {
    assert_eq!(
        build_question_prompt("geometry", "basic", -5),
        expected_prompt(
            "立体几何（空间向量、位置关系）",
            -5,
            "基础题：直接考查公式定理，计算量小，单一步骤可解",
            "basic"
        )
    );
}

#[test]
fn the_same_arguments_give_the_same_prompt() {
    let first = build_question_prompt("sequences", "medium", 4);
    let second = build_question_prompt("sequences", "medium", 4);
    assert_eq!(first, second);
    let other = build_question_prompt("sequences", "medium", 5);
    assert_ne!(first, other);
}

#[test]
fn the_prompt_shows_the_marks_that_the_parser_looks_for() {
    let prompt = build_question_prompt("trigonometry", "hard", 2);
    for mark in ["【第", "题】", "题目：", "解答：", "答案：", "---", "$"] {
        assert!(prompt.contains(mark), "{}", mark);
    }
}

#[test]
fn every_topic_of_the_table_has_its_name() {
    for (code, name) in [
        ("functions", "函数（函数性质、图像、应用）"),
        ("derivatives", "导数（导数计算、单调性、极值、不等式证明）"),
        ("trigonometry", "三角函数（三角恒等变换、图像性质）"),
        ("sequences", "数列（等差/等比数列、求和、递推）"),
        ("geometry", "立体几何（空间向量、位置关系）"),
        ("analytic-geometry", "解析几何（直线、圆、圆锥曲线）"),
        ("probability", "概率统计（概率计算、分布、统计）"),
        ("Functions", "Functions"),
        ("algebra", "algebra"),
    ] {
        assert_eq!(text(&name_topic(&chars(code))), name);
    }
}

#[test]
fn every_difficulty_has_its_description() {
    for (code, description) in [
        ("basic", "基础题：直接考查公式定理，计算量小，单一步骤可解"),
        ("medium", "中档题：2-3个知识点结合，需要一定技巧，计算量适中"),
        ("hard", "困难题：多知识点综合，需要构造、转化，计算量大或思维跳跃"),
        ("Basic", "中档题"),
        ("veryhard", "中档题"),
    ] {
        assert_eq!(text(&describe_difficulty(&chars(code))), description);
    }
}

#[test]
fn reads_compares_with_a_literal() {
    assert!(reads(&chars("basic"), "basic"));
    assert!(!reads(&chars("basic"), "basi"));
    assert!(!reads(&chars("basic"), "basic "));
}
