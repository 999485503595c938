use vstd::prelude::*;

verus! {

use vstd::string::StringExecFns;

/// Weather that a day of the forecast can bring.
#[derive(Debug, PartialEq, Eq, Structural, Hash, Clone, Copy)]
pub enum WeatherType {
    Sunny,
    Rainy,
    Foggy,
    TropicalMonsoon,
    TrentinoWinter,
}

/// Coarse phase of the day, derived from the hour.
#[derive(Debug, PartialEq, Eq, Structural, Clone, Copy)]
pub enum DayTime {
    Morning,
    Afternoon,
    Night,
}

/// Wall-clock time of day, minutes and hours only.
#[derive(Debug, PartialEq, Eq, Structural, Clone, Copy)]
pub struct TimeOfDay {
    pub hour: u32,
    pub minute: u32,
}

/// Whether a time value denotes a real time of day.
pub open spec fn time_ok(t: TimeOfDay) -> bool {
    t.hour < 24 && t.minute < 60
}

/// Total minutes since midnight plus `delta`.
pub open spec fn advanced_minutes(t: TimeOfDay, delta: u32) -> int {
    t.hour * 60 + t.minute + delta
}

impl TimeOfDay {
    /// Move the clock forward by `delta` minutes; the result says whether the
    /// clock wrapped past midnight.
    pub fn advance(&mut self, delta: u32) -> (wrapped: bool)
        requires
            time_ok(*old(self)),
        ensures
            time_ok(*final(self)),
            final(self).hour * 60 + final(self).minute == advanced_minutes(*old(self), delta)
                % 1440int,
            wrapped == (advanced_minutes(*old(self), delta) >= 1440),
    {
        let total: u64 = (self.hour as u64) * 60 + (self.minute as u64) + (delta as u64);
        let rem: u64 = total % (24 * 60);
        self.hour = (rem / 60) as u32;
        self.minute = (rem % 60) as u32;
        total >= 24 * 60
    }
}

/// The phase of the day that an hour falls into: morning is 6:00 to 11:59,
/// afternoon 12:00 to 20:59, night the rest.
pub open spec fn day_time_of_hour(hour: u32) -> DayTime {
    if 6 <= hour < 12 {
        DayTime::Morning
    } else if 12 <= hour < 21 {
        DayTime::Afternoon
    } else {
        DayTime::Night
    }
}

pub open spec fn digit_char_spec(d: nat) -> char {
    if d == 0 {
        '0'
    } else if d == 1 {
        '1'
    } else if d == 2 {
        '2'
    } else if d == 3 {
        '3'
    } else if d == 4 {
        '4'
    } else if d == 5 {
        '5'
    } else if d == 6 {
        '6'
    } else if d == 7 {
        '7'
    } else if d == 8 {
        '8'
    } else {
        '9'
    }
}

/// The characters of a clock display `hh:mm`, both fields zero-padded.
pub open spec fn clock_string_spec(hour: u32, minute: u32) -> Seq<char> {
    seq![
        digit_char_spec((hour / 10) as nat),
        digit_char_spec((hour % 10) as nat),
        ':',
        digit_char_spec((minute / 10) as nat),
        digit_char_spec((minute % 10) as nat),
    ]
}

fn digit_str(d: u32) -> (r: &'static str)
    requires
        d < 10,
    ensures
        r@ =~= seq![digit_char_spec(d as nat)],
{
    match d {
        0 => {
            proof {
                reveal_strlit("0");
            }
            "0"
        },
        1 => {
            proof {
                reveal_strlit("1");
            }
            "1"
        },
        2 => {
            proof {
                reveal_strlit("2");
            }
            "2"
        },
        3 => {
            proof {
                reveal_strlit("3");
            }
            "3"
        },
        4 => {
            proof {
                reveal_strlit("4");
            }
            "4"
        },
        5 => {
            proof {
                reveal_strlit("5");
            }
            "5"
        },
        6 => {
            proof {
                reveal_strlit("6");
            }
            "6"
        },
        7 => {
            proof {
                reveal_strlit("7");
            }
            "7"
        },
        8 => {
            proof {
                reveal_strlit("8");
            }
            "8"
        },
        _ => {
            proof {
                reveal_strlit("9");
            }
            "9"
        },
    }
}

/// The weather and the clock of the world: a cyclic forecast advanced once a
/// day, and a time of day advanced by a fixed number of minutes per tick.
#[derive(Debug, Clone)]
pub struct EnvironmentalConditions {
    pub time_progression_minutes: u32,
    pub time_of_day: TimeOfDay,
    pub weather_forecast: Vec<WeatherType>,
    pub weather_index: usize,
}

/// Well-formedness of the weather state: a nonempty forecast, an index into
/// it, and a real time of day.
pub open spec fn env_ok(e: EnvironmentalConditions) -> bool {
    &&& e.weather_forecast@.len() > 0
    &&& e.weather_index < e.weather_forecast@.len()
    &&& time_ok(e.time_of_day)
}

impl EnvironmentalConditions {
    pub open spec fn forecast(&self) -> Seq<WeatherType> {
        self.weather_forecast@
    }

    pub open spec fn index(&self) -> int {
        self.weather_index as int
    }

    pub open spec fn time(&self) -> TimeOfDay {
        self.time_of_day
    }

    pub open spec fn progression(&self) -> u32 {
        self.time_progression_minutes
    }

    /// A forecast starting on its first day, with the clock at the given hour.
    pub fn new(weather_forecast: &[WeatherType], time_progression_minutes: u32, starting_hour: u32) -> (e:
        EnvironmentalConditions)
        requires
            weather_forecast@.len() > 0,
            starting_hour < 24,
        ensures
            env_ok(e),
            e.forecast() == weather_forecast@,
            e.index() == 0,
            e.time() == (TimeOfDay { hour: starting_hour, minute: 0 }),
            e.progression() == time_progression_minutes,
    {
        let mut forecast: Vec<WeatherType> = Vec::new();
        let mut i: usize = 0;
        while i < weather_forecast.len()
            invariant
                i <= weather_forecast@.len(),
                forecast@ =~= weather_forecast@.subrange(0, i as int),
            decreases weather_forecast@.len() - i,
        {
            forecast.push(weather_forecast[i]);
            i += 1;
        }
        proof {
            assert(forecast@ =~= weather_forecast@);
        }
        EnvironmentalConditions {
            time_progression_minutes,
            time_of_day: TimeOfDay { hour: starting_hour, minute: 0 },
            weather_forecast: forecast,
            weather_index: 0,
        }
    }

    /// Advance the forecast to the next day, cyclically.
    pub fn next_day(&mut self)
        requires
            env_ok(*old(self)),
        ensures
            env_ok(*final(self)),
            final(self).forecast() == old(self).forecast(),
            final(self).time() == old(self).time(),
            final(self).progression() == old(self).progression(),
            final(self).index() == (old(self).index() + 1) % old(self).forecast().len() as int,
    {
        let len = self.weather_forecast.len();
        if self.weather_index + 1 >= len {
            self.weather_index = 0;
            proof {
                assert(len as int % len as int == 0) by (nonlinear_arith)
                    requires
                        len >= 1,
                ;
            }
        } else {
            self.weather_index = self.weather_index + 1;
            proof {
                let idx = self.weather_index as int;
                assert(idx % len as int == idx) by (nonlinear_arith)
                    requires
                        0 <= idx < len,
                ;
            }
        }
    }

    /// Move the clock forward by one tick; when the clock wraps past
    /// midnight, the forecast advances to the next day.
    pub fn tick(&mut self)
        requires
            env_ok(*old(self)),
        ensures
            env_ok(*final(self)),
            final(self).forecast() == old(self).forecast(),
            final(self).progression() == old(self).progression(),
            final(self).time().hour * 60 + final(self).time().minute == advanced_minutes(
                old(self).time(),
                old(self).progression(),
            ) % 1440int,
            advanced_minutes(old(self).time(), old(self).progression()) >= 1440
                ==> final(self).index() == (old(self).index() + 1) % old(
                self,
            ).forecast().len() as int,
            advanced_minutes(old(self).time(), old(self).progression()) < 1440
                ==> final(self).index() == old(self).index(),
    {
        let progression = self.time_progression_minutes;
        let wrapped = self.time_of_day.advance(progression);
        if wrapped {
            self.next_day();
        }
    }

    /// An exact copy of this weather state.
    pub fn duplicate(&self) -> (r: EnvironmentalConditions)
        ensures
            r.progression() == self.progression(),
            r.time() == self.time(),
            r.forecast() == self.forecast(),
            r.index() == self.index(),
    {
        let mut forecast: Vec<WeatherType> = Vec::new();
        let mut i: usize = 0;
        while i < self.weather_forecast.len()
            invariant
                i <= self.weather_forecast@.len(),
                forecast@ =~= self.weather_forecast@.subrange(0, i as int),
            decreases self.weather_forecast@.len() - i,
        {
            forecast.push(self.weather_forecast[i]);
            i += 1;
        }
        proof {
            assert(forecast@ =~= self.weather_forecast@);
        }
        EnvironmentalConditions {
            time_progression_minutes: self.time_progression_minutes,
            time_of_day: self.time_of_day,
            weather_forecast: forecast,
            weather_index: self.weather_index,
        }
    }

    /// Whether this value is internally consistent: a runtime check for
    /// weather values that arrive from unverified generators.
    pub fn is_well_formed(&self) -> (r: bool)
        ensures
            r == env_ok(*self),
    {
        self.weather_forecast.len() > 0 && self.weather_index < self.weather_forecast.len()
            && self.time_of_day.hour < 24 && self.time_of_day.minute < 60
    }

    /// The weather of the current day.
    pub fn get_weather_condition(&self) -> (w: WeatherType)
        requires
            env_ok(*self),
        ensures
            w == self.forecast()[self.index()],
    {
        self.weather_forecast[self.weather_index]
    }

    /// The current time of day.
    pub fn get_time_of_day(&self) -> (d: DayTime)
        ensures
            d == day_time_of_hour(self.time().hour),
    {
        if 6 <= self.time_of_day.hour && self.time_of_day.hour < 12 {
            DayTime::Morning
        } else if 12 <= self.time_of_day.hour && self.time_of_day.hour < 21 {
            DayTime::Afternoon
        } else {
            DayTime::Night
        }
    }

    /// The current clock as `hh:mm`, both fields zero-padded.
    pub fn get_time_of_day_string(&self) -> (s: String)
        requires
            env_ok(*self),
        ensures
            s@ =~= clock_string_spec(self.time().hour, self.time().minute),
    {
        let mut s = String::from_str(digit_str(self.time_of_day.hour / 10));
        s.append(digit_str(self.time_of_day.hour % 10));
        proof {
            reveal_strlit(":");
        }
        s.append(":");
        s.append(digit_str(self.time_of_day.minute / 10));
        s.append(digit_str(self.time_of_day.minute % 10));
        s
    }
}

} // verus!
