use pangalacticcc::engine::read_statements;
use pangalacticcc::{ParseRomanNumeralError, Roman};
use std::str::FromStr;
use pangalacticcc::{
    answer_how_many_credits, answer_how_much, run_statements, Config, NumeralMapping, Rate,
    Reply, UnitMapping,
};

/// Renders a reply the way the command-line program prints it.
fn render(reply: &Reply) -> String {
    match reply {
        Reply::Line(s) => s.clone(),
        Reply::Priced { phrase, quantity, rate } => format!(
            "{} is {} Credits",
            phrase,
            *quantity as f64 * (rate.credits as f64 / rate.amount as f64)
        ),
        Reply::RateChanged { unit, previous, current } => format!(
            "\"{}\" has ambiguous value. Old: {}, new {}. Using new definition.",
            unit,
            previous.credits as f64 / previous.amount as f64,
            current.credits as f64 / current.amount as f64
        ),
    }
}

fn example_numerals() -> NumeralMapping {
    let mut hm = NumeralMapping::new();
    hm.insert("glob".to_string(), 'I');
    hm.insert("prok".to_string(), 'V');
    hm.insert("tegj".to_string(), 'L');
    hm.insert("pish".to_string(), 'X');
    hm
}

#[test]
fn test_answer_how_much_example_42() {
    let hm = example_numerals();
    let question = "how much is pish tegj glob glob ?";
    let expected = "pish tegj glob glob is 42";
    let result = answer_how_much(&hm, question);
    assert_eq!(expected, result)
}

#[test]
fn test_answer_how_much_bla_8() {
    let mut hm = NumeralMapping::new();
    hm.insert("bla".to_string(), 'I');
    hm.insert("blub".to_string(), 'V');
    hm.insert("blubber".to_string(), 'L');
    let question = "how much is blub bla bla bla ?";
    let expected = "blub bla bla bla is 8";
    let result = answer_how_much(&hm, question);
    assert_eq!(expected, result)
}

#[test]
fn test_answer_how_much_bla_invalid() {
    let mut hm = NumeralMapping::new();
    hm.insert("bla".to_string(), 'I');
    hm.insert("blub".to_string(), 'V');
    hm.insert("blubber".to_string(), 'L');
    let question = "how much is blub blubber ?";
    let expected = "I don't know how to interpret this number: blub blubber -> VL";
    let result = answer_how_much(&hm, question);
    assert_eq!(expected, result)
}

fn how_many(rate: Rate, unit: &str, question: &str) -> String {
    let mut nm = NumeralMapping::new();
    nm.insert("glob".to_string(), 'I');
    nm.insert("prok".to_string(), 'V');
    let mut um = UnitMapping::new();
    um.insert(unit.to_string(), rate);
    render(&answer_how_many_credits(&nm, &um, question))
}

#[test]
fn test_answer_how_many_example_silver_86() {
    // 21.5 Credits per unit
    let rate = Rate { credits: 43, amount: 2 };
    let question = "how many Credits is glob prok Silver ?";
    let expected = "glob prok Silver is 86 Credits";
    assert_eq!(expected, how_many(rate, "Silver", question))
}

#[test]
fn test_answer_how_many_example_gold_57800() {
    // 14450 Credits per unit
    let rate = Rate { credits: 14450, amount: 1 };
    let question = "how many Credits is glob prok Gold ?";
    let expected = "glob prok Gold is 57800 Credits";
    assert_eq!(expected, how_many(rate, "Gold", question))
}

#[test]
fn test_answer_how_many_example_iron_782() {
    // 195.5 Credits per unit
    let rate = Rate { credits: 391, amount: 2 };
    let question = "how many Credits is glob prok Iron ?";
    let expected = "glob prok Iron is 782 Credits";
    assert_eq!(expected, how_many(rate, "Iron", question))
}

#[test]
fn how_many_priced_parts() {
    let mut nm = NumeralMapping::new();
    nm.insert("glob".to_string(), 'I');
    nm.insert("prok".to_string(), 'V');
    let mut um = UnitMapping::new();
    um.insert("Silver".to_string(), Rate { credits: 86, amount: 4 });
    match answer_how_many_credits(&nm, &um, "how many Credits is glob prok Silver ?") {
        Reply::Priced { phrase, quantity, rate } => {
            assert_eq!(phrase, "glob prok Silver");
            assert_eq!(quantity, 4);
            assert_eq!(rate, Rate { credits: 86, amount: 4 });
        }
        other => panic!("unexpected reply {:?}", other),
    }
}

#[test]
fn scenario_how_much_42() {
    let nm = example_numerals();
    assert_eq!(answer_how_much(&nm, "how much is pish tegj glob glob ?"), "pish tegj glob glob is 42");
}

#[test]
fn scenario_unit_from_statement_then_question() {
    let text = "glob is I\nprok is V\npish is X\ntegj is L\nglob prok Silver is 86 Credits\nhow many Credits is glob prok Silver ?\n";
    let out: Vec<String> = run_statements(text).iter().map(render).collect();
    assert_eq!(out, vec!["glob prok Silver is 86 Credits".to_string()]);
}

#[test]
fn scenario_untranslatable_amount() {
    let nm = example_numerals();
    let mut um = UnitMapping::new();
    um.insert("Iron".to_string(), Rate { credits: 391, amount: 2 });
    let reply = answer_how_many_credits(&nm, &um, "how many Credits is bla prok Iron ?");
    assert_eq!(render(&reply), "Not everything could be translated to roman numerals: bla prok");
}

#[test]
fn scenario_unknown_unit() {
    let nm = example_numerals();
    let mut um = UnitMapping::new();
    um.insert("Iron".to_string(), Rate { credits: 391, amount: 2 });
    let reply = answer_how_many_credits(&nm, &um, "how many Credits is glob prok Fish ?");
    assert_eq!(render(&reply), "This unit is unkown to me: Fish");
}

#[test]
fn repeated_question_gets_same_answer() {
    let nm = example_numerals();
    let mut um = UnitMapping::new();
    um.insert("Silver".to_string(), Rate { credits: 34, amount: 2 });
    let q1 = "how much is pish tegj glob glob ?";
    assert_eq!(answer_how_much(&nm, q1), answer_how_much(&nm, q1));
    let q2 = "how many Credits is glob prok Silver ?";
    assert_eq!(
        render(&answer_how_many_credits(&nm, &um, q2)),
        render(&answer_how_many_credits(&nm, &um, q2))
    );
}

#[test]
fn how_much_drops_reserved_and_unknown_tokens() {
    let mut nm = example_numerals();
    nm.insert("is".to_string(), 'M');
    assert_eq!(answer_how_much(&nm, "how much is glob bla glob ?"), "glob glob is 2");
    assert_eq!(
        answer_how_much(&nm, "how much is ?"),
        "I don't know how to interpret this number:  -> "
    );
}

#[test]
fn later_numeral_definition_wins() {
    let mut nm = example_numerals();
    nm.insert("glob".to_string(), 'C');
    assert_eq!(answer_how_much(&nm, "how much is glob ?"), "glob is 100");
}

#[test]
fn how_many_with_bad_numeral_or_shape_gives_default() {
    let nm = example_numerals();
    let mut um = UnitMapping::new();
    um.insert("Iron".to_string(), Rate { credits: 10, amount: 1 });
    let default = "I have no idea what you are talking about";
    assert_eq!(render(&answer_how_many_credits(&nm, &um, "how many Credits is glob glob glob glob Iron ?")), default);
    assert_eq!(render(&answer_how_many_credits(&nm, &um, "how many Credits is glob Iron")), default);
    assert_eq!(render(&answer_how_many_credits(&nm, &um, "what is glob Iron ?")), default);
    assert_eq!(
        render(&answer_how_many_credits(&nm, &um, "how many Credits is   glob Iron   ?  ")),
        "glob Iron is 10 Credits"
    );
}

#[test]
fn full_example_run() {
    let text = "glob is I\n\
prok is V\n\
pish is X\n\
tegj is L\n\
glob glob Silver is 34 Credits\n\
glob prok Gold is 57800 Credits\n\
pish pish Iron is 3910 Credits\n\
how much is pish tegj glob glob ?\n\
how many Credits is glob prok Silver ?\n\
how many Credits is glob prok Gold ?\n\
how many Credits is glob prok Iron ?\n\
\n\
how much wood could a woodchuck chuck if a woodchuck could chuck wood ?\n";
    let out: Vec<String> = run_statements(text).iter().map(render).collect();
    assert_eq!(
        out,
        vec![
            "pish tegj glob glob is 42".to_string(),
            "glob prok Silver is 68 Credits".to_string(),
            "glob prok Gold is 57800 Credits".to_string(),
            "glob prok Iron is 782 Credits".to_string(),
            "I have no idea what you are talking about".to_string(),
        ]
    );
}

#[test]
fn definitions_may_follow_questions() {
    let text = "how much is pish glob ?\n  glob glob Silver is 34 Credits  \nhow many Credits is glob Silver ?\npish is X\r\nglob is I\n";
    let out: Vec<String> = run_statements(text).iter().map(render).collect();
    assert_eq!(
        out,
        vec!["pish glob is 11".to_string(), "glob Silver is 17 Credits".to_string()]
    );
}

#[test]
fn unit_notices_come_first() {
    let text = "glob is I\nhow much is glob ?\nglob Gold is 10 Credits\nglob Gold is 12 Credits\nglob Gold is 12 Credits\nbla Iron is 5 Credits\n";
    let out: Vec<String> = run_statements(text).iter().map(render).collect();
    assert_eq!(
        out,
        vec![
            "\"Gold\" has ambiguous value. Old: 10, new 12. Using new definition.".to_string(),
            "I don't understand this statement about units: bla Iron is 5 Credits".to_string(),
            "glob is 1".to_string(),
        ]
    );
}

#[test]
fn empty_input_gives_nothing() {
    assert!(run_statements("").is_empty());
    assert!(run_statements("\n  \n\t\n").is_empty());
}

#[test]
fn statements_are_trimmed_and_blank_lines_skipped() {
    let st = read_statements("  glob is I \n\n\t\nhow much is glob ?\r\n   ");
    assert_eq!(st, vec!["glob is I".to_string(), "how much is glob ?".to_string()]);
}

#[test]
fn config_dash_means_standard_input() {
    assert!(Config::new("-".to_string()).reads_stdin());
    assert!(!Config::new("input.txt".to_string()).reads_stdin());
    assert!(!Config::new("--".to_string()).reads_stdin());
    assert_eq!(Config::new("input.txt".to_string()).path(), "input.txt");
}

#[test]
fn mapping_lookup_and_replace() {
    let mut um = UnitMapping::new();
    assert_eq!(um.get(&"Gold".to_string()), None);
    um.insert("Gold".to_string(), Rate { credits: 10, amount: 1 });
    um.insert("Iron".to_string(), Rate { credits: 3, amount: 2 });
    um.insert("Gold".to_string(), Rate { credits: 12, amount: 1 });
    assert_eq!(um.get(&"Gold".to_string()), Some(Rate { credits: 12, amount: 1 }));
    assert_eq!(um.get(&"Iron".to_string()), Some(Rate { credits: 3, amount: 2 }));
    assert!(Rate { credits: 6, amount: 4 }.same_as(&Rate { credits: 3, amount: 2 }));
    assert!(!Rate { credits: 6, amount: 4 }.same_as(&Rate { credits: 3, amount: 1 }));
}

#[test]
fn classification_list_run_end_to_end() {
    let lines = [
        "glob is I",
        "prok is V",
        "pish is X",
        "tegj is L",
        "glob glob Silver is 34 Credits",
        "glob prok Gold is 57800 Credits",
        "pish pish Iron is 3910 Credits",
        "how much is pish tegj glob glob ?",
        "how many Credits is glob prok Silver ?",
        "",
        "how much wood could a woodchuck chuck ?",
    ];
    let out: Vec<String> = run_statements(&lines.join("\n")).iter().map(render).collect();
    assert_eq!(
        out,
        vec![
            "pish tegj glob glob is 42".to_string(),
            "glob prok Silver is 68 Credits".to_string(),
            "I have no idea what you are talking about".to_string(),
        ]
    );
}

#[test]
fn parse_goes_through_the_strict_decoder() {
    assert_eq!(Roman::from_str("MMMCCM").unwrap_err(), ParseRomanNumeralError::InvalidNumeral);
    assert_eq!(Roman::from_str("Y").unwrap_err().to_string(), "invalid string for roman numeral");
    assert_eq!(Roman::from_str("MDCCCLXXV").unwrap().get_value(), 1875);
}
