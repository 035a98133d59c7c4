//! Synchronisation primitives.

pub mod cpumutex;
pub mod sema;

pub use self::cpumutex::CpuMutex;
pub use self::cpumutex::CpuMutexGuard;
pub use self::cpumutex::LockState;
pub use self::sema::Semaphore;
pub use self::sema::SemaphoreGuard;
