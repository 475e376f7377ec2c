//! The parameters that a test instance is started with: texts under names.

use crate::gen_topology::{params_fault, Params, ParamsView};
use crate::influx::Double;
use crate::text::{
    numbers_are_read_in_decimal, numeral_value, only_digits, parse_number, read_number, same_text,
    unsigned, NumberError,
};
use vstd::hash_map::StringHashMap;
use vstd::prelude::*;

verus! {

/// The value of a parameter: a text, and the double that the text reads as, if it does.
#[derive(Debug)]
pub struct ParamValue {
    pub text: String,
    pub double: Option<Double>,
}

/// What a [`ParamValue`] stands for.
pub struct ParamValueView {
    pub text: Seq<char>,
    pub double: Option<Double>,
}

impl View for ParamValue {
    type V = ParamValueView;

    open spec fn view(&self) -> ParamValueView {
        ParamValueView { text: self.text@, double: self.double }
    }
}

/// The parameters of a test instance.
pub struct InstanceParams {
    values: StringHashMap<ParamValue>,
}

impl View for InstanceParams {
    type V = Map<Seq<char>, ParamValueView>;

    closed spec fn view(&self) -> Map<Seq<char>, ParamValueView> {
        self.values@.map_values(|value: ParamValue| value@)
    }
}

/// Parameters, as a mathematical map.
pub type ParamMap = Map<Seq<char>, ParamValueView>;

/// How a failed attempt to read a whole number is reported.
pub open spec fn number_fault(error: NumberError) -> Seq<char> {
    match error {
        NumberError::Empty => "cannot parse integer from empty string"@,
        NumberError::InvalidDigit => "invalid digit found in string"@,
        NumberError::PosOverflow => "number too large to fit in target type"@,
    }
}

/// How a failed attempt to read a whole number is reported.
pub fn number_fault_text(error: NumberError) -> (text: &'static str)
    ensures
        text@ == number_fault(error),
{
    match error {
        NumberError::Empty => "cannot parse integer from empty string",
        NumberError::InvalidDigit => "invalid digit found in string",
        NumberError::PosOverflow => "number too large to fit in target type",
    }
}

/// The whole number of at most `max` under `key`. Where there is none, `absent` is reported; where
/// the text is no such number, the reason is reported behind `prefix`.
pub open spec fn number_at(
    params: ParamMap,
    key: Seq<char>,
    absent: Seq<char>,
    prefix: Seq<char>,
    max: nat,
) -> Result<nat, Seq<char>> {
    if !params.contains_key(key) {
        Err(absent)
    } else {
        match read_number(params[key].text, max) {
            Ok(number) => Ok(number),
            Err(error) => Err(prefix + number_fault(error)),
        }
    }
}

/// The truth value under `key`. Where there is none, `absent` is reported.
pub open spec fn flag_at(params: ParamMap, key: Seq<char>, absent: Seq<char>) -> Result<
    bool,
    Seq<char>,
> {
    if !params.contains_key(key) {
        Err(absent)
    } else if params[key].text == "true"@ {
        Ok(true)
    } else if params[key].text == "false"@ {
        Ok(false)
    } else {
        Err("provided string was not `true` or `false`"@)
    }
}

/// What is reported where a parameter is absent.
pub open spec fn not_specified(key: Seq<char>) -> Seq<char> {
    key + " is not specified."@
}

/// What is reported where a parameter does not read as what it should be.
pub open spec fn not_parsed(key: Seq<char>) -> Seq<char> {
    "Failed to parse instance_param. key: "@ + key
}

/// What a parameter can be read as.
pub trait FromParam: View + Sized {
    /// What a value reads as, if it does.
    spec fn read(value: ParamValueView) -> Option<Self::V>;

    /// Reads a value.
    fn from_param(value: &ParamValue) -> (parsed: Option<Self>)
        ensures
            match parsed {
                Some(x) => Self::read(value@) == Some(x@),
                None => Self::read(value@) is None,
            },
    ;
}

impl FromParam for u64 {
    open spec fn read(value: ParamValueView) -> Option<u64> {
        match read_number(value.text, u64::MAX as nat) {
            Ok(number) => Some(number as u64),
            Err(_) => None,
        }
    }

    fn from_param(value: &ParamValue) -> (parsed: Option<u64>) {
        match parse_number(value.text.as_str(), u64::MAX) {
            Ok(number) => Some(number),
            Err(_) => None,
        }
    }
}

impl FromParam for usize {
    open spec fn read(value: ParamValueView) -> Option<usize> {
        match read_number(value.text, usize::MAX as nat) {
            Ok(number) => Some(number as usize),
            Err(_) => None,
        }
    }

    fn from_param(value: &ParamValue) -> (parsed: Option<usize>) {
        match parse_number(value.text.as_str(), usize::MAX as u64) {
            Ok(number) => Some(number as usize),
            Err(_) => None,
        }
    }
}

impl FromParam for bool {
    open spec fn read(value: ParamValueView) -> Option<bool> {
        if value.text == "true"@ {
            Some(true)
        } else if value.text == "false"@ {
            Some(false)
        } else {
            None
        }
    }

    fn from_param(value: &ParamValue) -> (parsed: Option<bool>) {
        parse_flag(value.text.as_str())
    }
}

impl View for Double {
    type V = Double;

    open spec fn view(&self) -> Double {
        *self
    }
}

impl FromParam for Double {
    open spec fn read(value: ParamValueView) -> Option<Double> {
        value.double
    }

    fn from_param(value: &ParamValue) -> (parsed: Option<Double>) {
        value.double
    }
}

impl FromParam for String {
    open spec fn read(value: ParamValueView) -> Option<Seq<char>> {
        Some(value.text)
    }

    fn from_param(value: &ParamValue) -> (parsed: Option<String>) {
        Some(value.text.clone())
    }
}

/// What the parameter under `key` reads as.
pub open spec fn param<T: FromParam>(params: ParamMap, key: Seq<char>) -> Result<T::V, Seq<char>> {
    if !params.contains_key(key) {
        Err(not_specified(key))
    } else {
        match T::read(params[key]) {
            Some(x) => Ok(x),
            None => Err(not_parsed(key)),
        }
    }
}

/// Reads the parameter under `k`.
pub fn get_param<T: FromParam>(k: &str, instance_params: &InstanceParams) -> (parsed: Result<
    T,
    String,
>)
    ensures
        match parsed {
            Ok(x) => param::<T>(instance_params@, k@) == Ok::<T::V, Seq<char>>(x@),
            Err(e) => param::<T>(instance_params@, k@) == Err::<T::V, Seq<char>>(e@),
        },
{
    match instance_params.get(k) {
        None => Err(not_specified_text(k)),
        Some(value) => match T::from_param(value) {
            Some(x) => Ok(x),
            None => Err(not_parsed_text(k)),
        },
    }
}

/// What is reported where a parameter is absent.
fn not_specified_text(key: &str) -> (text: String)
    ensures
        text@ == not_specified(key@),
{
    let mut text: String = key.to_owned();
    text.append(" is not specified.");
    text
}

/// What is reported where a parameter does not read as what it should be.
fn not_parsed_text(key: &str) -> (text: String)
    ensures
        text@ == not_parsed(key@),
{
    let mut text: String = "Failed to parse instance_param. key: ".to_owned();
    text.append(key);
    text
}

/// A truth value.
fn parse_flag(text: &str) -> (flag: Option<bool>)
    ensures
        flag == if text@ == "true"@ {
            Some(true)
        } else if text@ == "false"@ {
            Some(false)
        } else {
            None
        },
{
    if same_text(text, "true") {
        Some(true)
    } else if same_text(text, "false") {
        Some(false)
    } else {
        None
    }
}

impl InstanceParams {
    /// No parameters.
    pub fn new() -> (params: Self)
        ensures
            params@ == ParamMap::empty(),
    {
        let params = InstanceParams { values: StringHashMap::new() };
        assert(params@ =~= ParamMap::empty());
        params
    }

    /// Sets a parameter. The double is what the text reads as, if it does.
    pub fn insert(&mut self, key: String, text: String, double: Option<Double>)
        ensures
            final(self)@ == old(self)@.insert(key@, ParamValueView { text: text@, double }),
    {
        self.values.insert(key, ParamValue { text, double });
        assert(self@ =~= old(self)@.insert(key@, ParamValueView { text: text@, double }));
    }

    /// The value under `key`.
    pub fn get(&self, key: &str) -> (value: Option<&ParamValue>)
        ensures
            match value {
                Some(value) => self@.contains_key(key@) && self@[key@] == value@,
                None => !self@.contains_key(key@),
            },
    {
        self.values.get(key)
    }

    /// The whole number of at most `max` under `key`, with the reports given.
    pub fn number(&self, key: &str, absent: &str, prefix: &str, max: u64) -> (number: Result<
        u64,
        String,
    >)
        ensures
            match number {
                Ok(n) => number_at(self@, key@, absent@, prefix@, max as nat) == Ok::<
                    nat,
                    Seq<char>,
                >(n as nat) && n <= max,
                Err(e) => number_at(self@, key@, absent@, prefix@, max as nat) == Err::<
                    nat,
                    Seq<char>,
                >(e@),
            },
    {
        match self.get(key) {
            None => Err(absent.to_owned()),
            Some(value) => match parse_number(value.text.as_str(), max) {
                Ok(n) => Ok(n),
                Err(error) => {
                    let mut text: String = prefix.to_owned();
                    text.append(number_fault_text(error));
                    Err(text)
                },
            },
        }
    }

    /// The whole number under `key` that fits in a machine word, with the reports given.
    pub fn size(&self, key: &str, absent: &str, prefix: &str) -> (number: Result<usize, String>)
        ensures
            match number {
                Ok(n) => number_at(self@, key@, absent@, prefix@, usize::MAX as nat) == Ok::<
                    nat,
                    Seq<char>,
                >(n as nat),
                Err(e) => number_at(self@, key@, absent@, prefix@, usize::MAX as nat) == Err::<
                    nat,
                    Seq<char>,
                >(e@),
            },
    {
        match self.number(key, absent, prefix, usize::MAX as u64) {
            Ok(n) => Ok(n as usize),
            Err(e) => Err(e),
        }
    }

    /// The truth value under `key`, with the report given where there is none.
    pub fn flag(&self, key: &str, absent: &str) -> (flag: Result<bool, String>)
        ensures
            match flag {
                Ok(b) => flag_at(self@, key@, absent@) == Ok::<bool, Seq<char>>(b),
                Err(e) => flag_at(self@, key@, absent@) == Err::<bool, Seq<char>>(e@),
            },
    {
        match self.get(key) {
            None => Err(absent.to_owned()),
            Some(value) => match parse_flag(value.text.as_str()) {
                Some(b) => Ok(b),
                None => Err("provided string was not `true` or `false`".to_owned()),
            },
        }
    }
}

/// How many of `total_nodes` nodes run no validators: that percentage of them, at most all, rounded
/// down.
pub open spec fn nodes_without_vals(total_nodes: nat, no_val_percentage: nat) -> nat {
    (total_nodes * if no_val_percentage <= 100 {
        no_val_percentage
    } else {
        100
    }) / 100
}

/// How many of `total_nodes` nodes run no validators.
pub fn count_nodes_without_vals(total_nodes: usize, no_val_percentage: usize) -> (count: usize)
    ensures
        count == nodes_without_vals(total_nodes as nat, no_val_percentage as nat),
        count <= total_nodes,
{
    let percentage: u128 = if no_val_percentage <= 100 {
        no_val_percentage as u128
    } else {
        100
    };
    assert(total_nodes * percentage <= total_nodes * 100) by (nonlinear_arith)
        requires
            percentage <= 100,
    ;
    let count: u128 = total_nodes as u128 * percentage / 100;
    count as usize
}

/// The topology parameters of a run whose numbers were read as given: all must have been read.
pub open spec fn topology_params(
    total_nodes: nat,
    seed: nat,
    no_val_percentage: nat,
    total_validators: nat,
    min_peers_per_node: nat,
    max_peers_per_node_inclusive: nat,
) -> Result<ParamsView, Seq<char>> {
    let without_vals = nodes_without_vals(total_nodes, no_val_percentage);
    match params_fault(
        total_validators as usize,
        (total_nodes - without_vals) as usize,
        without_vals as usize,
        min_peers_per_node as usize,
        max_peers_per_node_inclusive as usize,
    ) {
        Some(fault) => Err(fault),
        None => Ok(
            ParamsView {
                seed: seed as u64,
                total_validators: total_validators as usize,
                total_nodes_with_vals: (total_nodes - without_vals) as usize,
                total_nodes: total_nodes as usize,
                min_peers_per_node: min_peers_per_node as usize,
                max_peers_per_node: max_peers_per_node_inclusive as usize,
            },
        ),
    }
}

/// Makes the topology parameters of a run.
pub fn make_topology_params(
    total_nodes: usize,
    seed: u64,
    no_val_percentage: usize,
    total_validators: usize,
    min_peers_per_node: usize,
    max_peers_per_node_inclusive: usize,
) -> (params: Result<Params, String>)
    ensures
        match params {
            Ok(params) => topology_params(
                total_nodes as nat,
                seed as nat,
                no_val_percentage as nat,
                total_validators as nat,
                min_peers_per_node as nat,
                max_peers_per_node_inclusive as nat,
            ) == Ok::<ParamsView, Seq<char>>(params@) && params@.valid(),
            Err(e) => topology_params(
                total_nodes as nat,
                seed as nat,
                no_val_percentage as nat,
                total_validators as nat,
                min_peers_per_node as nat,
                max_peers_per_node_inclusive as nat,
            ) == Err::<ParamsView, Seq<char>>(e@),
        },
{
    let without_vals: usize = count_nodes_without_vals(total_nodes, no_val_percentage);
    match Params::new(
        seed,
        total_validators,
        total_nodes - without_vals,
        without_vals,
        min_peers_per_node,
        max_peers_per_node_inclusive,
    ) {
        Ok(params) => Ok(params),
        Err(fault) => Err(fault.to_owned()),
    }
}

/// The run time in seconds and the topology parameters of a run, read one after the other.
pub open spec fn parsed_params(total_nodes: nat, params: ParamMap) -> Result<
    (nat, ParamsView),
    Seq<char>,
> {
    let none = ""@;
    let seed = number_at(params, "seed"@, "seed is not specified."@, none, u64::MAX as nat);
    let no_val = number_at(
        params,
        "no_val_percentage"@,
        "`no_val_percentage` is not specified"@,
        none,
        usize::MAX as nat,
    );
    let validators = number_at(
        params,
        "total_validators"@,
        "`total_validators` not specified"@,
        "Error reading total_validators "@,
        usize::MAX as nat,
    );
    let least = number_at(
        params,
        "min_peers_per_node"@,
        "`min_peers_per_node` not specified"@,
        none,
        usize::MAX as nat,
    );
    let most = number_at(
        params,
        "max_peers_per_node_inclusive"@,
        "`max_peers_per_node_inclusive` not specified"@,
        none,
        usize::MAX as nat,
    );
    let run = number_at(params, "run"@, "run is not specified."@, none, u64::MAX as nat);
    if seed is Err {
        Err(seed->Err_0)
    } else if no_val is Err {
        Err(no_val->Err_0)
    } else if validators is Err {
        Err(validators->Err_0)
    } else if least is Err {
        Err(least->Err_0)
    } else if most is Err {
        Err(most->Err_0)
    } else if run is Err {
        Err(run->Err_0)
    } else {
        match topology_params(
            total_nodes,
            seed->Ok_0,
            no_val->Ok_0,
            validators->Ok_0,
            least->Ok_0,
            most->Ok_0,
        ) {
            Ok(topology) => Ok((run->Ok_0, topology)),
            Err(fault) => Err(fault),
        }
    }
}

/// Reads the run time in seconds and the topology parameters of a run.
pub fn parse_params(instance_count: usize, instance_params: &InstanceParams) -> (parsed: Result<
    (u64, Params),
    String,
>)
    ensures
        match parsed {
            Ok((run, params)) => parsed_params(instance_count as nat, instance_params@) == Ok::<
                (nat, ParamsView),
                Seq<char>,
            >((run as nat, params@)) && params@.valid(),
            Err(e) => parsed_params(instance_count as nat, instance_params@) == Err::<
                (nat, ParamsView),
                Seq<char>,
            >(e@),
        },
{
    let seed: u64 = instance_params.number("seed", "seed is not specified.", "", u64::MAX)?;
    let no_val_percentage: usize = instance_params.size(
        "no_val_percentage",
        "`no_val_percentage` is not specified",
        "",
    )?;
    let total_validators: usize = instance_params.size(
        "total_validators",
        "`total_validators` not specified",
        "Error reading total_validators ",
    )?;
    let min_peers_per_node: usize = instance_params.size(
        "min_peers_per_node",
        "`min_peers_per_node` not specified",
        "",
    )?;
    let max_peers_per_node_inclusive: usize = instance_params.size(
        "max_peers_per_node_inclusive",
        "`max_peers_per_node_inclusive` not specified",
        "",
    )?;
    let run: u64 = instance_params.number("run", "run is not specified.", "", u64::MAX)?;
    let params: Params = make_topology_params(
        instance_count,
        seed,
        no_val_percentage,
        total_validators,
        min_peers_per_node,
        max_peers_per_node_inclusive,
    )?;
    Ok((run, params))
}

/// What is read under a name depends on the name and on the text there alone. A number must be there,
/// must be one in decimal digits and must not exceed its limit, else one of four reports is given.
pub proof fn numbers_are_read_by_name(
    params: ParamMap,
    key: Seq<char>,
    absent: Seq<char>,
    prefix: Seq<char>,
    max: nat,
)
    ensures
        ({
            let read = number_at(params, key, absent, prefix, max);
            let digits = unsigned(params[key].text);
            let readable = params.contains_key(key) && digits.len() > 0 && only_digits(digits)
                && numeral_value(digits) <= max;
            let too_large = exists|k: int|
                0 <= k <= digits.len() && only_digits(digits.take(k)) && numeral_value(
                    #[trigger] digits.take(k),
                ) > max;
            &&& read is Ok <==> readable
            &&& readable ==> read->Ok_0 == numeral_value(digits)
            &&& !params.contains_key(key) ==> read == Err::<nat, Seq<char>>(absent)
            &&& params.contains_key(key) && !readable ==> read == Err::<nat, Seq<char>>(
                prefix + if params[key].text.len() == 0 {
                    "cannot parse integer from empty string"@
                } else if too_large {
                    "number too large to fit in target type"@
                } else {
                    "invalid digit found in string"@
                },
            )
        }),
{
    numbers_are_read_in_decimal(params[key].text, max);
}

/// A truth value is read under its name from the text `true` or `false`, and nothing else.
pub proof fn flags_are_read_by_name(params: ParamMap, key: Seq<char>, absent: Seq<char>)
    ensures
        ({
            let read = flag_at(params, key, absent);
            let text = params[key].text;
            &&& !params.contains_key(key) ==> read == Err::<bool, Seq<char>>(absent)
            &&& read == Ok::<bool, Seq<char>>(true) <==> params.contains_key(key) && text
                == seq!['t', 'r', 'u', 'e']
            &&& read == Ok::<bool, Seq<char>>(false) <==> params.contains_key(key) && text
                == seq!['f', 'a', 'l', 's', 'e']
            &&& params.contains_key(key) && read is Err ==> read->Err_0
                == "provided string was not `true` or `false`"@
        }),
{
    lemma_flag_texts();
}

proof fn lemma_flag_texts()
    ensures
        "true"@ == seq!['t', 'r', 'u', 'e'],
        "false"@ == seq!['f', 'a', 'l', 's', 'e'],
        "true"@ != "false"@,
{
    reveal_strlit("true");
    reveal_strlit("false");
    assert("true"@ =~= seq!['t', 'r', 'u', 'e']);
    assert("false"@ =~= seq!['f', 'a', 'l', 's', 'e']);
    assert("true"@.len() != "false"@.len());
}

/// What a typed parameter reads as: a number in decimal digits up to the largest of its type, `true`
/// or `false`, the double that comes with the text, or the text itself. What is missing and what
/// cannot be read is reported with the name of the parameter.
pub proof fn parameters_are_read_by_type(params: ParamMap, key: Seq<char>)
    ensures
        ({
            let there = params.contains_key(key);
            let value = params[key];
            let digits = unsigned(value.text);
            let number = there && digits.len() > 0 && only_digits(digits);
            &&& param::<u64>(params, key) is Ok <==> number && numeral_value(digits) <= u64::MAX
            &&& param::<u64>(params, key) is Ok ==> param::<u64>(params, key)->Ok_0
                == numeral_value(digits)
            &&& param::<usize>(params, key) is Ok <==> number && numeral_value(digits)
                <= usize::MAX
            &&& param::<usize>(params, key) is Ok ==> param::<usize>(params, key)->Ok_0
                == numeral_value(digits)
            &&& param::<bool>(params, key) == Ok::<bool, Seq<char>>(true) <==> there && value.text
                == seq!['t', 'r', 'u', 'e']
            &&& param::<bool>(params, key) == Ok::<bool, Seq<char>>(false) <==> there && value.text
                == seq!['f', 'a', 'l', 's', 'e']
            &&& there ==> param::<String>(params, key) == Ok::<Seq<char>, Seq<char>>(value.text)
            &&& param::<Double>(params, key) is Ok <==> there && value.double is Some
            &&& param::<Double>(params, key) is Ok ==> value.double == Some(
                param::<Double>(params, key)->Ok_0,
            )
        }),
        unread_is_reported(params, key, param::<u64>(params, key)),
        unread_is_reported(params, key, param::<usize>(params, key)),
        unread_is_reported(params, key, param::<bool>(params, key)),
        unread_is_reported(params, key, param::<String>(params, key)),
        unread_is_reported(params, key, param::<Double>(params, key)),
{
    numbers_are_read_in_decimal(params[key].text, u64::MAX as nat);
    numbers_are_read_in_decimal(params[key].text, usize::MAX as nat);
    lemma_flag_texts();
}

/// Whether a parameter that could not be read is reported with its name.
pub open spec fn unread_is_reported<V>(
    params: ParamMap,
    key: Seq<char>,
    read: Result<V, Seq<char>>,
) -> bool {
    read matches Err(report) ==> report == if params.contains_key(key) {
        "Failed to parse instance_param. key: "@ + key
    } else {
        key + " is not specified."@
    }
}

/// The nodes without validators are the percentage that is asked for, rounded down, and all nodes
/// where more than all are asked for.
pub proof fn share_of_nodes_is_rounded_down(total_nodes: nat, no_val_percentage: nat)
    ensures
        no_val_percentage >= 100 ==> nodes_without_vals(total_nodes, no_val_percentage)
            == total_nodes,
        no_val_percentage < 100 ==> {
            &&& 100 * nodes_without_vals(total_nodes, no_val_percentage) <= total_nodes
                * no_val_percentage
            &&& total_nodes * no_val_percentage < 100 * nodes_without_vals(
                total_nodes,
                no_val_percentage,
            ) + 100
        },
        nodes_without_vals(total_nodes, no_val_percentage) <= total_nodes,
{
    let share = if no_val_percentage <= 100 {
        no_val_percentage
    } else {
        100
    };
    assert(total_nodes * share <= total_nodes * 100) by (nonlinear_arith)
        requires
            share <= 100,
    ;
}

/// Whether topology parameters hold the numbers that were given for them: of all nodes, the given
/// percentage run no validators.
pub open spec fn holds_numbers(
    params: ParamsView,
    total_nodes: nat,
    seed: nat,
    no_val_percentage: nat,
    total_validators: nat,
    least: nat,
    most: nat,
) -> bool {
    let without = params.total_nodes - params.total_nodes_with_vals;
    &&& params.seed == seed
    &&& params.total_validators == total_validators
    &&& params.total_nodes == total_nodes
    &&& params.min_peers_per_node == least
    &&& params.max_peers_per_node == most
    &&& no_val_percentage >= 100 ==> without == total_nodes
    &&& no_val_percentage < 100 ==> 100 * without <= total_nodes * no_val_percentage < 100
        * without + 100
}

/// Topology parameters are made where there are nodes and validators and the least number of
/// connections is at most the largest, and then hold the numbers given. Else the first thing that is
/// wrong is reported.
pub proof fn topology_params_hold_their_numbers(
    total_nodes: usize,
    seed: u64,
    no_val_percentage: usize,
    total_validators: usize,
    least: usize,
    most: usize,
)
    ensures
        ({
            let made = topology_params(
                total_nodes as nat,
                seed as nat,
                no_val_percentage as nat,
                total_validators as nat,
                least as nat,
                most as nat,
            );
            &&& made is Ok <==> total_nodes > 0 && total_validators > 0 && least <= most
            &&& made is Ok ==> holds_numbers(
                made->Ok_0,
                total_nodes as nat,
                seed as nat,
                no_val_percentage as nat,
                total_validators as nat,
                least as nat,
                most as nat,
            )
            &&& made is Err ==> made->Err_0 == if total_nodes == 0 {
                "Empty network"@
            } else if total_validators == 0 {
                "no validators in the network"@
            } else {
                "bad connection range"@
            }
        }),
{
    share_of_nodes_is_rounded_down(total_nodes as nat, no_val_percentage as nat);
}

/// Whether a run time and a topology are what was read for them: the first number that could not be
/// read decides the report, and else the topology holds the numbers.
pub open spec fn is_read_from(
    read: Result<(nat, ParamsView), Seq<char>>,
    total_nodes: nat,
    seed: Result<nat, Seq<char>>,
    no_val: Result<nat, Seq<char>>,
    validators: Result<nat, Seq<char>>,
    least: Result<nat, Seq<char>>,
    most: Result<nat, Seq<char>>,
    run: Result<nat, Seq<char>>,
) -> bool {
    let fine = seed is Ok && no_val is Ok && validators is Ok && least is Ok && most is Ok && run
        is Ok;
    &&& read is Ok <==> fine && total_nodes > 0 && validators->Ok_0 > 0 && least->Ok_0 <= most->Ok_0
    &&& read matches Ok((time, topology)) ==> time == run->Ok_0 && holds_numbers(
        topology,
        total_nodes,
        seed->Ok_0,
        no_val->Ok_0,
        validators->Ok_0,
        least->Ok_0,
        most->Ok_0,
    )
    &&& read matches Err(report) ==> {
        ||| seed == Err::<nat, Seq<char>>(report)
        ||| seed is Ok && no_val == Err::<nat, Seq<char>>(report)
        ||| seed is Ok && no_val is Ok && validators == Err::<nat, Seq<char>>(report)
        ||| seed is Ok && no_val is Ok && validators is Ok && least == Err::<nat, Seq<char>>(report)
        ||| seed is Ok && no_val is Ok && validators is Ok && least is Ok && most == Err::<
            nat,
            Seq<char>,
        >(report)
        ||| seed is Ok && no_val is Ok && validators is Ok && least is Ok && most is Ok && run
            == Err::<nat, Seq<char>>(report)
        ||| fine && report == if total_nodes == 0 {
            "Empty network"@
        } else if validators->Ok_0 == 0 {
            "no validators in the network"@
        } else {
            "bad connection range"@
        }
    }
}

/// The run time and the topology of a run are read from the numbers under their own names, in order.
pub proof fn run_and_topology_are_read_by_name(total_nodes: usize, params: ParamMap)
    ensures
        is_read_from(
            parsed_params(total_nodes as nat, params),
            total_nodes as nat,
            number_at(params, "seed"@, "seed is not specified."@, ""@, u64::MAX as nat),
            number_at(
                params,
                "no_val_percentage"@,
                "`no_val_percentage` is not specified"@,
                ""@,
                usize::MAX as nat,
            ),
            number_at(
                params,
                "total_validators"@,
                "`total_validators` not specified"@,
                "Error reading total_validators "@,
                usize::MAX as nat,
            ),
            number_at(
                params,
                "min_peers_per_node"@,
                "`min_peers_per_node` not specified"@,
                ""@,
                usize::MAX as nat,
            ),
            number_at(
                params,
                "max_peers_per_node_inclusive"@,
                "`max_peers_per_node_inclusive` not specified"@,
                ""@,
                usize::MAX as nat,
            ),
            number_at(params, "run"@, "run is not specified."@, ""@, u64::MAX as nat),
        ),
{
    let seed = number_at(params, "seed"@, "seed is not specified."@, ""@, u64::MAX as nat);
    let no_val = number_at(
        params,
        "no_val_percentage"@,
        "`no_val_percentage` is not specified"@,
        ""@,
        usize::MAX as nat,
    );
    let validators = number_at(
        params,
        "total_validators"@,
        "`total_validators` not specified"@,
        "Error reading total_validators "@,
        usize::MAX as nat,
    );
    let least = number_at(
        params,
        "min_peers_per_node"@,
        "`min_peers_per_node` not specified"@,
        ""@,
        usize::MAX as nat,
    );
    let most = number_at(
        params,
        "max_peers_per_node_inclusive"@,
        "`max_peers_per_node_inclusive` not specified"@,
        ""@,
        usize::MAX as nat,
    );
    numbers_are_read_in_decimal(params["seed"@].text, u64::MAX as nat);
    numbers_are_read_in_decimal(params["no_val_percentage"@].text, usize::MAX as nat);
    numbers_are_read_in_decimal(params["total_validators"@].text, usize::MAX as nat);
    numbers_are_read_in_decimal(params["min_peers_per_node"@].text, usize::MAX as nat);
    numbers_are_read_in_decimal(params["max_peers_per_node_inclusive"@].text, usize::MAX as nat);
    if seed is Ok && no_val is Ok && validators is Ok && least is Ok && most is Ok {
        topology_params_hold_their_numbers(
            total_nodes,
            seed->Ok_0 as u64,
            no_val->Ok_0 as usize,
            validators->Ok_0 as usize,
            least->Ok_0 as usize,
            most->Ok_0 as usize,
        );
    }
}

} // verus!
