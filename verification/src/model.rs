//! The data that sensors and the controller exchange.

use crate::token::random_id;
use vstd::prelude::*;

verus! {

/// What a sensor announces about itself, once, when it connects.
#[derive(Debug, PartialEq, Eq)]
pub struct SensorIdentity {
    /// The 128-bit token that the sensor drew at start-up.
    pub id: u128,
    /// The name the sensor was given.
    pub name: String,
}

/// The mathematical value of a [`SensorIdentity`].
pub struct IdentityView {
    pub id: u128,
    pub name: Seq<char>,
}

impl View for SensorIdentity {
    type V = IdentityView;

    open spec fn view(&self) -> IdentityView {
        IdentityView { id: self.id, name: self.name@ }
    }
}

impl SensorIdentity {
    /// The identity of a sensor that starts now: the given name under an id
    /// drawn at random, which the sensor keeps for as long as it runs.
    pub fn fresh(name: String) -> (identity: Self)
        ensures
            identity.name == name,
    {
        SensorIdentity { id: random_id(), name }
    }
}

impl Clone for SensorIdentity {
    fn clone(&self) -> (copy: Self)
        ensures
            copy == *self,
    {
        SensorIdentity { id: self.id, name: self.name.clone() }
    }
}

/// The latest reading known of one sensor.
#[derive(Debug, PartialEq, Eq)]
pub struct SensorRecord {
    pub identity: SensorIdentity,
    pub latest_value: u32,
}

/// The mathematical value of a [`SensorRecord`].
pub struct RecordView {
    pub identity: IdentityView,
    pub latest_value: u32,
}

impl View for SensorRecord {
    type V = RecordView;

    open spec fn view(&self) -> RecordView {
        RecordView { identity: self.identity@, latest_value: self.latest_value }
    }
}

impl Clone for SensorRecord {
    fn clone(&self) -> (copy: Self)
        ensures
            copy == *self,
    {
        SensorRecord { identity: self.identity.clone(), latest_value: self.latest_value }
    }
}

} // verus!
