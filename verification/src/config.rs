//! The plugin configuration: which panes are managed.

use crate::names::NameMap;
use vstd::prelude::*;

verus! {

/// The decimal digit for a number below ten.
pub open spec fn digit(d: nat) -> char {
    if d == 0 {
        '0'
    } else if d == 1 {
        '1'
    } else if d == 2 {
        '2'
    } else if d == 3 {
        '3'
    } else if d == 4 {
        '4'
    } else if d == 5 {
        '5'
    } else if d == 6 {
        '6'
    } else if d == 7 {
        '7'
    } else if d == 8 {
        '8'
    } else {
        '9'
    }
}

/// A number in decimal notation, without leading zeros.
pub open spec fn decimal(n: nat) -> Seq<char>
    decreases n,
{
    if n < 10 {
        seq![digit(n)]
    } else {
        decimal(n / 10).push(digit(n % 10))
    }
}

/// The configuration key that names the managed pane number `i`: `pane_<i>_name`.
pub open spec fn pane_key(i: nat) -> Seq<char> {
    "pane_"@ + decimal(i) + "_name"@
}

/// The strings of a list, as sequences of characters.
pub open spec fn texts(strings: Seq<String>) -> Seq<Seq<char>> {
    strings.map_values(|s: String| s@)
}

/// A configuration with its values as sequences of characters.
pub open spec fn config_texts(config: Map<Seq<char>, String>) -> Map<Seq<char>, Seq<char>> {
    Map::new(|key: Seq<char>| config.contains_key(key), |key: Seq<char>| config[key]@)
}

/// Whether `names` are the panes that the configuration lists: the values of the keys
/// `pane_0_name`, `pane_1_name` and so on, up to the first key that is missing.
pub open spec fn lists_panes(
    config: Map<Seq<char>, Seq<char>>,
    names: Seq<Seq<char>>,
) -> bool {
    &&& forall|i: nat|
        i < names.len() ==> config.contains_key(#[trigger] pane_key(i)) && config[pane_key(i)]
            == names[i as int]
    &&& !config.contains_key(pane_key(names.len()))
}

/// The panes that the configuration lists.
pub open spec fn listed_panes(config: Map<Seq<char>, Seq<char>>) -> Seq<Seq<char>> {
    choose|names: Seq<Seq<char>>| lists_panes(config, names)
}

/// Different numbers have different decimal notations.
pub proof fn lemma_decimal_injective(a: nat, b: nat)
    requires
        decimal(a) == decimal(b),
    ensures
        a == b,
    decreases a,
{
    assert(decimal(a).last() == digit(a % 10));
    assert(decimal(b).last() == digit(b % 10));
    assert(a % 10 == b % 10);
    if a < 10 {
        if b >= 10 {
            lemma_decimal_nonempty(b / 10);
            assert(decimal(b).len() == decimal(b / 10).len() + 1);
        }
    } else {
        lemma_decimal_nonempty(a / 10);
        assert(decimal(a).len() == decimal(a / 10).len() + 1);
        if b >= 10 {
            assert(decimal(a).drop_last() =~= decimal(a / 10));
            assert(decimal(b).drop_last() =~= decimal(b / 10));
            lemma_decimal_injective(a / 10, b / 10);
        }
    }
}

proof fn lemma_decimal_nonempty(n: nat)
    ensures
        decimal(n).len() >= 1,
{
}

/// Different panes have different keys.
pub proof fn lemma_pane_key_injective(a: nat, b: nat)
    requires
        pane_key(a) == pane_key(b),
    ensures
        a == b,
{
    let start = "pane_"@.len() as int;
    let end = pane_key(a).len() - "_name"@.len();
    assert(decimal(a) =~= pane_key(a).subrange(start, end));
    assert(decimal(b) =~= pane_key(b).subrange(start, end));
    lemma_decimal_injective(a, b);
}

/// A configuration lists one sequence of panes at most.
pub proof fn lemma_listed_panes_unique(
    config: Map<Seq<char>, Seq<char>>,
    names: Seq<Seq<char>>,
)
    requires
        lists_panes(config, names),
    ensures
        listed_panes(config) == names,
{
    let listed = listed_panes(config);
    assert(lists_panes(config, listed));
    assert(!config.contains_key(pane_key(names.len())));
    assert(!config.contains_key(pane_key(listed.len())));
    assert(listed.len() == names.len());
    assert forall|i: int| 0 <= i < names.len() implies listed[i] == names[i] by {
        assert(config.contains_key(pane_key(i as nat)));
    }
    assert(listed =~= names);
}

/// A configuration that has the keys of the first `n` panes has at least `n` keys.
proof fn lemma_keys_counted(config: Map<Seq<char>, String>, n: nat)
    requires
        config.dom().finite(),
        forall|i: nat| i < n ==> config.contains_key(#[trigger] pane_key(i)),
    ensures
        n <= config.len(),
{
    let keys = Seq::new(n, |i: int| pane_key(i as nat));
    assert forall|i: int, j: int| 0 <= i < n && 0 <= j < n && i != j implies keys[i] != keys[j] by {
        if keys[i] == keys[j] {
            lemma_pane_key_injective(i as nat, j as nat);
        }
    }
    keys.unique_seq_to_set();
    assert(keys.to_set().subset_of(config.dom())) by {
        assert forall|key: Seq<char>| keys.to_set().contains(key) implies config.dom().contains(
            key,
        ) by {
            let i = keys.index_of(key);
            assert(key == pane_key(i as nat));
        }
    }
    vstd::set_lib::lemma_len_subset(keys.to_set(), config.dom());
}

/// The decimal digit for a number below ten.
fn digit_text(d: usize) -> (text: &'static str)
    requires
        d < 10,
    ensures
        text@ == seq![digit(d as nat)],
{
    proof {
        reveal_strlit("0");
        reveal_strlit("1");
        reveal_strlit("2");
        reveal_strlit("3");
        reveal_strlit("4");
        reveal_strlit("5");
        reveal_strlit("6");
        reveal_strlit("7");
        reveal_strlit("8");
        reveal_strlit("9");
    }
    match d {
        0 => "0",
        1 => "1",
        2 => "2",
        3 => "3",
        4 => "4",
        5 => "5",
        6 => "6",
        7 => "7",
        8 => "8",
        _ => "9",
    }
}

/// A number in decimal notation, without leading zeros.
pub fn decimal_text(n: usize) -> (text: String)
    ensures
        text@ == decimal(n as nat),
    decreases n,
{
    if n < 10 {
        digit_text(n).to_owned()
    } else {
        let mut text = decimal_text(n / 10);
        text.append(digit_text(n % 10));
        text
    }
}

/// The configuration key that names the managed pane number `i`.
pub fn pane_key_text(i: usize) -> (key: String)
    ensures
        key@ == pane_key(i as nat),
{
    let mut key = "pane_".to_owned();
    key.append(decimal_text(i).as_str());
    key.append("_name");
    key
}

/// The panes that the configuration lists, in order.
pub fn read_managed_panes(configuration: &NameMap<String>) -> (names: Vec<String>)
    ensures
        lists_panes(config_texts(configuration@), texts(names@)),
        texts(names@) == listed_panes(config_texts(configuration@)),
        forall|i: nat|
            i < names@.len() ==> configuration@.contains_key(
                "pane_"@ + #[trigger] decimal(i) + "_name"@,
            ) && configuration@["pane_"@ + decimal(i) + "_name"@]@ == names@[i as int]@,
        !configuration@.contains_key("pane_"@ + decimal(names@.len()) + "_name"@),
{
    let total = configuration.len();
    let ghost config = config_texts(configuration@);
    let mut names: Vec<String> = Vec::new();
    loop
        invariant
            configuration@.dom().finite(),
            total == configuration@.len(),
            config == config_texts(configuration@),
            names@.len() <= total,
            forall|i: nat|
                i < names@.len() ==> config.contains_key(#[trigger] pane_key(i))
                    && config[pane_key(i)] == names@[i as int]@,
        decreases total - names@.len(),
    {
        let ghost before = names@;
        match configuration.get(pane_key_text(names.len()).as_str()) {
            Some(name) => {
                names.push(name.clone());
                proof {
                    assert forall|i: nat| i < names@.len() implies configuration@.contains_key(
                        #[trigger] pane_key(i),
                    ) by {
                        assert(config.contains_key(pane_key(i)) || i == before.len());
                    }
                    lemma_keys_counted(configuration@, names@.len());
                }
            },
            None => {
                assert(lists_panes(config, texts(names@)));
                proof {
                    assert forall|i: nat| i < names@.len() implies configuration@.contains_key(
                        "pane_"@ + #[trigger] decimal(i) + "_name"@,
                    ) && configuration@["pane_"@ + decimal(i) + "_name"@]@ == names@[i as int]@ by {
                        assert(config.contains_key(pane_key(i)));
                    }
                    lemma_listed_panes_unique(config, texts(names@));
                }
                return names;
            },
        }
    }
}

} // verus!
