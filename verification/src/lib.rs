//! Back-office processing of cash-in and cash-out transactions as a pipeline
//! of stages joined by queues: classification, authorization, fraud screening
//! and settlement.
//!
//! Every stage is a value that advances by steps over the queues it is handed,
//! so that a driver (one thread per worker, or a test on a single thread) may
//! interleave the steps of many workers in any order. The contracts say what
//! each step does to the queues, and the laws say what holds of every
//! interleaving.
//!
//! The stages, in the order of the flow: `procesador` reads and classifies,
//! `proveedor_externo` and `provedor_externo` supply tokens, `worker` and
//! `autorizacion` authorize, `ia` and `cribado` screen for fraud,
//! `worker_final` settles on the accounts of `cliente`. `cola` is the queue
//! between them and `transaccion` what flows. `simulacion` makes the log that
//! the pipeline reads. `azar`, `fraccion` and `identificador` hold the random
//! source, the fractions drawn from it and the random identifiers.

pub mod autorizacion;
pub mod azar;
pub mod cliente;
pub mod cola;
pub mod cribado;
pub mod fraccion;
pub mod ia;
pub mod identificador;
mod multiconjuntos;
pub mod procesador;
pub mod provedor_externo;
pub mod proveedor_externo;
pub mod simulacion;
pub mod transaccion;
pub mod worker;
pub mod worker_final;
