pub mod subscriptions_confirm;
pub mod subscriptions;
