//! User settings: values by dotted name.
use vstd::prelude::*;

verus! {

/// A configuration value, by its kind.
#[derive(Debug)]
pub enum ConfigValue {
    String(String),
    Integer(i64),
    Boolean(bool),
    /// Any other kind, none of which a setting of this library reads.
    Other,
}

impl Clone for ConfigValue {
    fn clone(&self) -> (res: Self)
        ensures
            res == *self,
    {
        match self {
            ConfigValue::String(s) => ConfigValue::String(s.clone()),
            ConfigValue::Integer(i) => ConfigValue::Integer(*i),
            ConfigValue::Boolean(b) => ConfigValue::Boolean(*b),
            ConfigValue::Other => ConfigValue::Other,
        }
    }
}

/// Why a setting could not be read.
#[derive(Debug)]
pub enum ConfigGetError<E> {
    /// No value has this name.
    NotFound { name: String },
    /// There is a value, but not one that the setting accepts.
    Type { name: String, error: E },
}

/// The settings of a user. A value that is added later takes the place of an
/// earlier one with the same name.
#[derive(Debug)]
pub struct UserSettings {
    values: Vec<(String, ConfigValue)>,
}

spec fn value_map(values: Seq<(String, ConfigValue)>) -> Map<Seq<char>, ConfigValue>
    decreases values.len(),
{
    if values.len() == 0 {
        Map::empty()
    } else {
        value_map(values.drop_last()).insert(values.last().0@, values.last().1)
    }
}

impl View for UserSettings {
    type V = Map<Seq<char>, ConfigValue>;

    closed spec fn view(&self) -> Map<Seq<char>, ConfigValue> {
        value_map(self.values@)
    }
}

impl UserSettings {
    /// Settings without any value.
    pub fn new() -> (res: Self)
        ensures
            res@ == Map::<Seq<char>, ConfigValue>::empty(),
    {
        UserSettings { values: Vec::new() }
    }

    /// Gives the setting `name` the value `value`.
    pub fn set_value(&mut self, name: String, value: ConfigValue)
        ensures
            final(self)@ == old(self)@.insert(name@, value),
    {
        let ghost before = self.values@;
        self.values.push((name, value));
        proof {
            assert(self.values@.drop_last() =~= before);
        }
    }

    /// Looks the setting `name` up, and has `convert` make of its value what
    /// the setting means.
    pub fn get_value_with<T, E, F: FnOnce(ConfigValue) -> Result<T, E>>(
        &self,
        name: &str,
        convert: F,
    ) -> (res: Result<T, ConfigGetError<E>>)
        requires
            self@.contains_key(name@) ==> call_requires(convert, (self@[name@],)),
        ensures
            !self@.contains_key(name@) ==> (res matches Err(
                ConfigGetError::NotFound { name: n },
            ) && n@ == name@),
            self@.contains_key(name@) ==> match res {
                Ok(t) => call_ensures(convert, (self@[name@],), Ok(t)),
                Err(ConfigGetError::Type { name: n, error }) => n@ == name@ && call_ensures(
                    convert,
                    (self@[name@],),
                    Err(error),
                ),
                Err(ConfigGetError::NotFound { .. }) => false,
            },
    {
        let wanted: String = name.to_owned();
        let mut i: usize = self.values.len();
        proof {
            assert(self.values@.take(i as int) =~= self.values@);
        }
        while i > 0
            invariant
                i <= self.values@.len(),
                wanted@ == name@,
                self@.contains_key(name@) == value_map(self.values@.take(i as int)).contains_key(
                    name@,
                ),
                self@.contains_key(name@) ==> self@[name@] == value_map(
                    self.values@.take(i as int),
                )[name@],
                self@.contains_key(name@) ==> call_requires(convert, (self@[name@],)),
            decreases i,
        {
            proof {
                assert(self.values@.take(i as int).drop_last() =~= self.values@.take(i - 1));
                assert(self.values@.take(i as int).last() == self.values@[i - 1]);
            }
            i -= 1;
            if self.values[i].0 == wanted {
                return match convert(self.values[i].1.clone()) {
                    Ok(t) => Ok(t),
                    Err(error) => Err(ConfigGetError::Type { name: wanted, error }),
                };
            }
        }
        Err(ConfigGetError::NotFound { name: wanted })
    }
}

} // verus!
